//! The registry of DRM devices, each named by a handle of its owner's
//! choosing (two handles are the same device iff they are equal).
use vstd::prelude::*;
use crate::error::Error;

verus! {

/// The registered devices, in order of registration.
pub struct DrmDeviceRegistry {
    devices: Vec<u64>,
}

/// The position of the first occurrence of `d` in `s`, if any.
pub open spec fn first_index(s: Seq<u64>, d: u64) -> Option<int> {
    if exists|i: int| 0 <= i < s.len() && s[i] == d {
        Some(choose|i: int| 0 <= i < s.len() && s[i] == d && forall|j: int| 0 <= j < i ==> s[j] != d)
    } else {
        None
    }
}

impl DrmDeviceRegistry {
    pub closed spec fn spec_devices(&self) -> Seq<u64> {
        self.devices@
    }

    /// An empty registry.
    pub fn new() -> (r: Self)
        ensures
            r.spec_devices() == Seq::<u64>::empty(),
    {
        DrmDeviceRegistry { devices: Vec::new() }
    }

    /// Adds a device at the end; registering never fails.
    pub fn register_drm_device(&mut self, device: u64) -> (r: Result<(), Error>)
        ensures
            r is Ok,
            final(self).spec_devices() == old(self).spec_devices().push(device),
    {
        self.devices.push(device);
        Ok(())
    }

    /// The registered devices, in order of registration.
    pub fn registered_drm_devices(&self) -> (v: Vec<u64>)
        ensures
            v@ == self.spec_devices(),
    {
        self.devices.clone()
    }

    /// Removes the first registration of `device` and gives it back; an
    /// unregistered device is not found.
    pub fn unregister_drm_device(&mut self, device: u64) -> (r: Result<u64, Error>)
        ensures
            match first_index(old(self).spec_devices(), device) {
                Some(i) => r == Ok::<u64, Error>(device) && final(self).spec_devices() == old(self).spec_devices().remove(i),
                None => r == Err::<u64, Error>(Error::NotFound) && final(self).spec_devices() == old(self).spec_devices(),
            },
    {
        let n = self.devices.len();
        let mut i: usize = 0;
        while i < n
            invariant
                n == self.devices@.len(),
                self.devices@ == old(self).devices@,
                i <= n,
                forall|j: int| 0 <= j < i ==> self.devices@[j] != device,
            decreases n - i,
        {
            if self.devices[i] == device {
                proof {
                    let s = old(self).devices@;
                    assert(0 <= i < s.len() && s[i as int] == device);
                    let k = first_index(s, device)->0;
                    assert(0 <= k < s.len() && s[k] == device && forall|j: int| 0 <= j < k ==> s[j] != device);
                    if k < i {
                        assert(s[k] != device);
                    }
                    if k > i {
                        assert(s[i as int] != device);
                    }
                    assert(k == i);
                }
                let d = self.devices.remove(i);
                return Ok(d);
            }
            i = i + 1;
        }
        Err(Error::NotFound)
    }
}

/// Registering a device that was not registered and then unregistering it
/// gives it back and leaves the registry as it was.
pub proof fn law_register_unregister(before: Seq<u64>, device: u64)
    requires
        !before.contains(device),
    ensures
        first_index(before.push(device), device) == Some(before.len() as int),
        before.push(device).remove(before.len() as int) == before,
{
    let s = before.push(device);
    assert(s[before.len() as int] == device);
    let k = first_index(s, device)->0;
    assert(0 <= k < s.len() && s[k] == device && forall|j: int| 0 <= j < k ==> s[j] != device);
    if k < before.len() {
        assert(before[k] == device);
        assert(before.contains(device));
    }
    assert(s.remove(before.len() as int) =~= before);
}

} // verus!
