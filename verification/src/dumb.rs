//! Dumb buffers of the simple mode-setting path: plain pixel memory, each
//! buffer in its own slot of a shared memory object and named by a small
//! id that starts at 1.
use vstd::prelude::*;

use crate::error::Errno;
use crate::ioctl_defs::{DrmModeCreateDumb, DrmModeDestroyDumb, DrmModeMapDumb};

verus! {

/// The bytes of one buffer slot in the shared memory object: room for a
/// 4096x4096 buffer of 32 bits per pixel.
pub const DUMB_BUFFER_SLOT_SIZE: usize = 64 * 1024 * 1024;

/// The pages of one buffer slot.
pub const DUMB_BUFFER_SLOT_PAGES: usize = 16384;

/// The alignment of a buffer slot.
pub const DUMB_BUFFER_ALIGN: usize = 4096;

/// The line length in bytes of a buffer `width` pixels of `bpp` bits wide,
/// rounded up to a multiple of 4.
pub open spec fn dumb_pitch_spec(width: u32, bpp: u32) -> int {
    let bytes = width * bpp / 8;
    (bytes + 3) / 4 * 4
}

/// The byte offset of the slot of buffer `id` in the shared memory object.
pub open spec fn slot_offset_spec(id: u32) -> int {
    (id - 1) * DUMB_BUFFER_SLOT_SIZE
}

/// A linear pixel buffer: its id, size, depth, line length and bytes.
pub struct DumbBuffer {
    id: u32,
    width: u32,
    height: u32,
    bpp: u32,
    pitch: u32,
    size: u64,
    data: Vec<u8>,
}

impl DumbBuffer {
    pub closed spec fn spec_id(&self) -> u32 {
        self.id
    }

    pub closed spec fn spec_width(&self) -> u32 {
        self.width
    }

    pub closed spec fn spec_height(&self) -> u32 {
        self.height
    }

    pub closed spec fn spec_bpp(&self) -> u32 {
        self.bpp
    }

    pub closed spec fn spec_pitch(&self) -> u32 {
        self.pitch
    }

    pub closed spec fn spec_size(&self) -> u64 {
        self.size
    }

    pub closed spec fn spec_data(&self) -> Seq<u8> {
        self.data@
    }

    /// Creates a zero-filled buffer with id 0; its line length is the
    /// pixel bytes of a line rounded up to a multiple of 4. Its bytes must
    /// be addressable.
    pub fn new(width: u32, height: u32, bpp: u32) -> (b: Self)
        requires
            dumb_pitch_spec(width, bpp) * height <= usize::MAX,
        ensures
            b.spec_id() == 0,
            b.spec_width() == width,
            b.spec_height() == height,
            b.spec_bpp() == bpp,
            b.spec_pitch() == dumb_pitch_spec(width, bpp) as u32,
            b.spec_size() == dumb_pitch_spec(width, bpp) * height,
            b.spec_data() == Seq::new(b.spec_size() as nat, |i: int| 0u8),
    {
        proof {
            lemma_pitch_fits(width, height, bpp);
        }
        let bytes = (width as u64) * (bpp as u64) / 8;
        let pitch = (bytes + 3) / 4 * 4;
        let size = pitch * (height as u64);
        let n = size as usize;
        let mut data: Vec<u8> = Vec::new();
        let mut i: usize = 0;
        while i < n
            invariant
                i <= n,
                data@ == Seq::new(i as nat, |k: int| 0u8),
            decreases n - i,
        {
            data.push(0u8);
            i = i + 1;
            proof {
                assert(data@ =~= Seq::new(i as nat, |k: int| 0u8));
            }
        }
        DumbBuffer { id: 0, width, height, bpp, pitch: pitch as u32, size, data }
    }

    pub fn id(&self) -> (v: u32)
        ensures
            v == self.spec_id(),
    {
        self.id
    }

    pub fn width(&self) -> (v: u32)
        ensures
            v == self.spec_width(),
    {
        self.width
    }

    pub fn height(&self) -> (v: u32)
        ensures
            v == self.spec_height(),
    {
        self.height
    }

    pub fn bpp(&self) -> (v: u32)
        ensures
            v == self.spec_bpp(),
    {
        self.bpp
    }

    pub fn pitch(&self) -> (v: u32)
        ensures
            v == self.spec_pitch(),
    {
        self.pitch
    }

    pub fn size(&self) -> (v: u64)
        ensures
            v == self.spec_size(),
    {
        self.size
    }

    pub fn data(&self) -> (d: &[u8])
        ensures
            d@ == self.spec_data(),
    {
        self.data.as_slice()
    }

    /// The pixel bytes, writable in place.
    pub fn data_mut(&mut self) -> (d: &mut [u8])
        ensures
            d@ == old(self).spec_data(),
            final(self).spec_data() == final(d)@,
            final(self).spec_id() == old(self).spec_id(),
            final(self).spec_width() == old(self).spec_width(),
            final(self).spec_height() == old(self).spec_height(),
            final(self).spec_bpp() == old(self).spec_bpp(),
            final(self).spec_pitch() == old(self).spec_pitch(),
            final(self).spec_size() == old(self).spec_size(),
    {
        self.data.as_mut_slice()
    }
}

/// An addressable buffer has a line length and size that fit.
proof fn lemma_pitch_fits(width: u32, height: u32, bpp: u32)
    requires
        dumb_pitch_spec(width, bpp) * height <= usize::MAX,
    ensures
        0 <= width * bpp / 8,
        width * bpp <= u64::MAX,
        width * bpp / 8 + 3 <= u64::MAX,
        height > 0 ==> dumb_pitch_spec(width, bpp) <= usize::MAX,
        dumb_pitch_spec(width, bpp) <= u64::MAX,
        dumb_pitch_spec(width, bpp) >= 0,
{
    assert(width * bpp <= 0xFFFF_FFFFu64 * 0xFFFF_FFFFu64) by (nonlinear_arith)
        requires
            width <= 0xFFFF_FFFFu32,
            bpp <= 0xFFFF_FFFFu32,
    ;
    assert(0 <= width * bpp) by (nonlinear_arith);
    let p = dumb_pitch_spec(width, bpp);
    assert(p >= 0);
    if height > 0 {
        assert(p <= p * height) by (nonlinear_arith)
            requires
                p >= 0,
                height >= 1,
        ;
    }
}

/// Hands out ids from 1 up, reusing released ids first, the latest
/// released first.
pub struct IdAllocator {
    next_id: u32,
    free_ids: Vec<u32>,
}

/// Whether `x` is in `v`.
fn id_listed(v: &Vec<u32>, x: u32) -> (r: bool)
    ensures
        r == v@.contains(x),
{
    let mut i: usize = 0;
    while i < v.len()
        invariant
            i <= v@.len(),
            forall|j: int| 0 <= j < i ==> v@[j] != x,
        decreases v@.len() - i,
    {
        if v[i] == x {
            assert(v@[i as int] == x);
            return true;
        }
        i = i + 1;
    }
    false
}

impl IdAllocator {
    pub closed spec fn spec_next_id(&self) -> u32 {
        self.next_id
    }

    pub closed spec fn spec_free_ids(&self) -> Seq<u32> {
        self.free_ids@
    }

    /// The allocator's invariant: the released ids are distinct, and each
    /// is one that was handed out fresh before (from 1 below the next
    /// fresh id).
    pub open spec fn wf(&self) -> bool {
        &&& self.spec_next_id() >= 1
        &&& self.spec_free_ids().no_duplicates()
        &&& forall|i: int| 0 <= i < self.spec_free_ids().len() ==> 0 < #[trigger] self.spec_free_ids()[i] < self.spec_next_id()
    }

    /// An allocator that hands out 1 first.
    pub fn new() -> (a: Self)
        ensures
            a.wf(),
            a.spec_next_id() == 1,
            a.spec_free_ids().len() == 0,
    {
        IdAllocator { next_id: 1, free_ids: Vec::new() }
    }

    /// Hands out the latest released id, else the next fresh one. The id
    /// handed out is not free afterwards.
    pub fn allocate(&mut self) -> (id: u32)
        requires
            old(self).wf(),
            old(self).spec_free_ids().len() > 0 || old(self).spec_next_id() < u32::MAX,
        ensures
            final(self).wf(),
            0 < id < final(self).spec_next_id(),
            !final(self).spec_free_ids().contains(id),
            if old(self).spec_free_ids().len() > 0 {
                &&& id == old(self).spec_free_ids().last()
                &&& final(self).spec_free_ids() == old(self).spec_free_ids().drop_last()
                &&& final(self).spec_next_id() == old(self).spec_next_id()
            } else {
                &&& id == old(self).spec_next_id()
                &&& final(self).spec_next_id() == old(self).spec_next_id() + 1
                &&& final(self).spec_free_ids() == old(self).spec_free_ids()
            },
    {
        if let Some(id) = self.free_ids.pop() {
            proof {
                let f = old(self).free_ids@;
                assert(f.drop_last() =~= self.free_ids@);
                assert(f[f.len() - 1] == id);
                assert forall|i: int| 0 <= i < self.free_ids@.len() implies self.free_ids@[i] != id by {
                    assert(self.free_ids@[i] == f[i]);
                }
                assert forall|i: int| 0 <= i < self.free_ids@.len() implies 0 < #[trigger] self.free_ids@[i] < self.next_id by {
                    assert(self.free_ids@[i] == f[i]);
                }
                assert(self.free_ids@.no_duplicates()) by {
                    assert forall|i: int, j: int| 0 <= i < self.free_ids@.len() && 0 <= j < self.free_ids@.len() && i != j
                        implies self.free_ids@[i] != self.free_ids@[j] by {
                        assert(self.free_ids@[i] == f[i] && self.free_ids@[j] == f[j]);
                    }
                }
            }
            return id;
        }
        let id = self.next_id;
        self.next_id = self.next_id + 1;
        id
    }

    /// Takes `id` back if it was handed out fresh before and is not free
    /// already.
    pub fn release(&mut self, id: u32)
        requires
            old(self).wf(),
        ensures
            final(self).wf(),
            final(self).spec_next_id() == old(self).spec_next_id(),
            final(self).spec_free_ids() == (if 0 < id < old(self).spec_next_id() && !old(self).spec_free_ids().contains(id) {
                old(self).spec_free_ids().push(id)
            } else {
                old(self).spec_free_ids()
            }),
    {
        if id > 0 && id < self.next_id && !id_listed(&self.free_ids, id) {
            self.free_ids.push(id);
            proof {
                let f = old(self).free_ids@;
                assert forall|i: int| 0 <= i < self.free_ids@.len() implies 0 < #[trigger] self.free_ids@[i] < self.next_id by {
                    if i < f.len() {
                        assert(self.free_ids@[i] == f[i]);
                    }
                }
                assert(self.free_ids@.no_duplicates()) by {
                    assert forall|i: int, j: int| 0 <= i < self.free_ids@.len() && 0 <= j < self.free_ids@.len() && i != j
                        implies self.free_ids@[i] != self.free_ids@[j] by {
                        if i < f.len() && j < f.len() {
                            assert(self.free_ids@[i] == f[i] && self.free_ids@[j] == f[j]);
                        } else if i < f.len() {
                            assert(self.free_ids@[i] == f[i]);
                            assert(!f.contains(id));
                        } else if j < f.len() {
                            assert(self.free_ids@[j] == f[j]);
                            assert(!f.contains(id));
                        }
                    }
                }
            }
        }
    }
}

/// A copy of a buffer's geometry and bytes.
pub struct DumbBufferSnapshot {
    pub width: u32,
    pub height: u32,
    pub bpp: u32,
    pub pitch: u32,
    pub size: u64,
    pub data: Vec<u8>,
}

/// All dumb buffers and the allocator of their ids.
pub struct DumbBufferManager {
    buffers: Vec<DumbBuffer>,
    id_alloc: IdAllocator,
}

/// Whether a buffer of `buffers` has id `id`.
pub open spec fn dumb_live(buffers: Seq<DumbBuffer>, id: u32) -> bool {
    exists|i: int| 0 <= i < buffers.len() && #[trigger] buffers[i].spec_id() == id
}

/// Whether `i` is the first position of a buffer with id `handle`.
pub open spec fn first_buffer(buffers: Seq<DumbBuffer>, handle: u32, i: int) -> bool {
    0 <= i < buffers.len() && buffers[i].spec_id() == handle && forall|j: int| 0 <= j < i ==> buffers[j].spec_id() != handle
}

impl DumbBufferManager {
    pub closed spec fn spec_buffers(&self) -> Seq<DumbBuffer> {
        self.buffers@
    }

    pub closed spec fn spec_id_alloc(&self) -> IdAllocator {
        self.id_alloc
    }

    /// The manager's invariant: the allocator's own; every buffer id was
    /// handed out (from 1 below the next fresh id); no two buffers share an
    /// id; no released id names a buffer; every buffer fits its slot.
    pub open spec fn wf(&self) -> bool {
        &&& self.spec_id_alloc().wf()
        &&& forall|i: int| 0 <= i < self.spec_buffers().len()
            ==> 1 <= #[trigger] self.spec_buffers()[i].spec_id() < self.spec_id_alloc().spec_next_id()
        &&& forall|i: int| 0 <= i < self.spec_buffers().len() ==> (#[trigger] self.spec_buffers()[i]).spec_data().len() <= DUMB_BUFFER_SLOT_SIZE
        &&& forall|i: int, j: int| 0 <= i < self.spec_buffers().len() && 0 <= j < self.spec_buffers().len() && i != j
            ==> #[trigger] self.spec_buffers()[i].spec_id() != #[trigger] self.spec_buffers()[j].spec_id()
        &&& forall|i: int, k: int| 0 <= i < self.spec_buffers().len() && 0 <= k < self.spec_id_alloc().spec_free_ids().len()
            ==> #[trigger] self.spec_buffers()[i].spec_id() != #[trigger] self.spec_id_alloc().spec_free_ids()[k]
    }

    /// A manager without buffers.
    pub fn new() -> (m: Self)
        ensures
            m.wf(),
            m.spec_buffers().len() == 0,
            m.spec_id_alloc().spec_next_id() == 1,
            m.spec_id_alloc().spec_free_ids().len() == 0,
    {
        DumbBufferManager { buffers: Vec::new(), id_alloc: IdAllocator::new() }
    }

    /// Whether another buffer id can be handed out: a released one, or a
    /// fresh one below the largest id.
    pub fn can_allocate(&self) -> (b: bool)
        ensures
            b == (self.spec_id_alloc().spec_free_ids().len() > 0 || self.spec_id_alloc().spec_next_id() < u32::MAX),
    {
        self.id_alloc.free_ids.len() > 0 || self.id_alloc.next_id < u32::MAX
    }

    /// The position of the buffer with id `handle`, if any.
    fn find_buffer_index(&self, handle: u32) -> (r: Option<usize>)
        ensures
            match r {
                Some(i) => first_buffer(self.spec_buffers(), handle, i as int),
                None => forall|j: int| 0 <= j < self.spec_buffers().len() ==> #[trigger] self.spec_buffers()[j].spec_id() != handle,
            },
    {
        let mut i: usize = 0;
        while i < self.buffers.len()
            invariant
                i <= self.buffers@.len(),
                forall|j: int| 0 <= j < i ==> #[trigger] self.buffers@[j].spec_id() != handle,
            decreases self.buffers@.len() - i,
        {
            if self.buffers[i].id() == handle {
                return Some(i);
            }
            i = i + 1;
        }
        None
    }

    /// Creates a zero-filled buffer and returns its id, line length, slot
    /// offset and size; a zero size or depth, or more than a slot, is
    /// invalid.
    pub fn create_dumb(&mut self, width: u32, height: u32, bpp: u32) -> (r: Result<(u32, u32, u64, u64), Errno>)
        requires
            old(self).wf(),
            old(self).spec_id_alloc().spec_free_ids().len() > 0 || old(self).spec_id_alloc().spec_next_id() < u32::MAX,
        ensures
            final(self).wf(),
            if width == 0 || height == 0 || bpp == 0 || dumb_pitch_spec(width, bpp) * height > DUMB_BUFFER_SLOT_SIZE {
                r == Err::<(u32, u32, u64, u64), Errno>(Errno::EINVAL) && *final(self) == *old(self)
            } else {
                r matches Ok((id, pitch, offset, size)) && {
                    &&& pitch == dumb_pitch_spec(width, bpp)
                    &&& size == dumb_pitch_spec(width, bpp) * height
                    &&& offset == slot_offset_spec(id)
                    &&& id == (if old(self).spec_id_alloc().spec_free_ids().len() > 0 {
                        old(self).spec_id_alloc().spec_free_ids().last()
                    } else {
                        old(self).spec_id_alloc().spec_next_id()
                    })
                    &&& !dumb_live(old(self).spec_buffers(), id)
                    &&& final(self).spec_buffers().len() == old(self).spec_buffers().len() + 1
                    &&& final(self).spec_buffers().drop_last() == old(self).spec_buffers()
                    &&& final(self).spec_buffers().last().spec_id() == id
                    &&& final(self).spec_buffers().last().spec_width() == width
                    &&& final(self).spec_buffers().last().spec_height() == height
                    &&& final(self).spec_buffers().last().spec_bpp() == bpp
                }
            },
    {
        if width == 0 || height == 0 || bpp == 0 {
            return Err(Errno::EINVAL);
        }
        proof {
            assert((width as int) * (bpp as int) <= 0xFFFF_FFFFu64 * 0xFFFF_FFFFu64) by (nonlinear_arith)
                requires
                    width <= 0xFFFF_FFFFu32,
                    bpp <= 0xFFFF_FFFFu32,
            ;
        }
        let bytes = (width as u64) * (bpp as u64) / 8;
        let pitch = (bytes + 3) / 4 * 4;
        if pitch > DUMB_BUFFER_SLOT_SIZE as u64 {
            proof {
                assert(dumb_pitch_spec(width, bpp) * height >= dumb_pitch_spec(width, bpp)) by (nonlinear_arith)
                    requires
                        dumb_pitch_spec(width, bpp) >= 0,
                        height >= 1,
                ;
            }
            return Err(Errno::EINVAL);
        }
        proof {
            assert(pitch * height <= 0x400_0000u64 * 0xFFFF_FFFFu64) by (nonlinear_arith)
                requires
                    pitch <= 0x400_0000u64,
                    height <= 0xFFFF_FFFFu32,
            ;
        }
        let size = pitch * (height as u64);
        if size > DUMB_BUFFER_SLOT_SIZE as u64 {
            return Err(Errno::EINVAL);
        }
        let id = self.id_alloc.allocate();
        proof {
            let b0 = old(self).spec_buffers();
            let f0 = old(self).spec_id_alloc().spec_free_ids();
            if f0.len() > 0 {
                assert(id == f0[f0.len() - 1]);
                assert forall|i: int| 0 <= i < b0.len() implies #[trigger] b0[i].spec_id() != id by {
                    assert(b0[i].spec_id() != f0[f0.len() - 1]);
                }
            }
            assert(!dumb_live(b0, id));
        }
        proof {
            let k = (id - 1) as u64;
            assert(k * 0x400_0000u64 <= 0xFFFF_FFFFu64 * 0x400_0000u64) by (nonlinear_arith)
                requires
                    k <= 0xFFFF_FFFFu64,
            ;
        }
        let offset = ((id - 1) as u64) * (DUMB_BUFFER_SLOT_SIZE as u64);
        let mut buffer = DumbBuffer::new(width, height, bpp);
        buffer.id = id;
        self.buffers.push(buffer);
        proof {
            let b0 = old(self).spec_buffers();
            let f0 = old(self).spec_id_alloc().spec_free_ids();
            let b1 = self.spec_buffers();
            let f1 = self.spec_id_alloc().spec_free_ids();
            assert(self.buffers@.drop_last() =~= old(self).buffers@);
            assert(b1[b0.len() as int].spec_id() == id);
            assert forall|k: int| 0 <= k < f1.len() implies #[trigger] f1[k] == f0[k] by {}
            assert forall|i: int| 0 <= i < b1.len() implies 1 <= #[trigger] b1[i].spec_id() < self.spec_id_alloc().spec_next_id() by {
                if i < b0.len() {
                    assert(b1[i] == b0[i]);
                }
            }
            assert forall|i: int| 0 <= i < b1.len() implies (#[trigger] b1[i]).spec_data().len() <= DUMB_BUFFER_SLOT_SIZE by {
                if i < b0.len() {
                    assert(b1[i] == b0[i]);
                }
            }
            assert forall|i: int, j: int| 0 <= i < b1.len() && 0 <= j < b1.len() && i != j implies #[trigger] b1[i].spec_id()
                != #[trigger] b1[j].spec_id() by {
                if i < b0.len() && j < b0.len() {
                    assert(b1[i] == b0[i] && b1[j] == b0[j]);
                } else if i < b0.len() {
                    assert(b1[i] == b0[i]);
                    assert(b0[i].spec_id() != id);
                } else if j < b0.len() {
                    assert(b1[j] == b0[j]);
                    assert(b0[j].spec_id() != id);
                }
            }
            assert forall|i: int, k: int| 0 <= i < b1.len() && 0 <= k < f1.len() implies #[trigger] b1[i].spec_id()
                != #[trigger] f1[k] by {
                assert(f1[k] == f0[k]);
                if i < b0.len() {
                    assert(b1[i] == b0[i]);
                    assert(b0[i].spec_id() != f0[k]);
                } else {
                    assert(!f1.contains(id));
                }
            }
            assert(dumb_live(b1, id));
        }
        Ok((id, pitch as u32, offset, size))
    }

    /// The slot offset of buffer `handle`; an unknown buffer is not found.
    pub fn get_offset(&self, handle: u32) -> (r: Result<u64, Errno>)
        requires
            self.wf(),
        ensures
            match r {
                Ok(offset) => (exists|i: int| 0 <= i < self.spec_buffers().len() && #[trigger] self.spec_buffers()[i].spec_id() == handle)
                    && offset == slot_offset_spec(handle),
                Err(e) => e == Errno::ENOENT && forall|i: int| 0 <= i < self.spec_buffers().len() ==> #[trigger] self.spec_buffers()[i].spec_id()
                    != handle,
            },
    {
        match self.find_buffer_index(handle) {
            Some(i) => {
                proof {
                    assert(1 <= self.spec_buffers()[i as int].spec_id());
                    let k = (handle - 1) as u64;
                    assert(k * 0x400_0000u64 <= 0xFFFF_FFFFu64 * 0x400_0000u64) by (nonlinear_arith)
                        requires
                            k <= 0xFFFF_FFFFu64,
                    ;
                }
                Ok(((handle - 1) as u64) * (DUMB_BUFFER_SLOT_SIZE as u64))
            },
            None => Err(Errno::ENOENT),
        }
    }

    /// Destroys buffer `handle` and releases its id; an unknown buffer is
    /// not found.
    pub fn destroy_dumb(&mut self, handle: u32) -> (r: Result<(), Errno>)
        requires
            old(self).wf(),
        ensures
            final(self).wf(),
            match r {
                Ok(()) => (exists|i: int| #[trigger] first_buffer(old(self).spec_buffers(), handle, i) && final(self).spec_buffers()
                    == old(self).spec_buffers().remove(i)) && final(self).spec_id_alloc().spec_free_ids()
                    == old(self).spec_id_alloc().spec_free_ids().push(handle) && !dumb_live(final(self).spec_buffers(), handle),
                Err(e) => e == Errno::ENOENT && *final(self) == *old(self) && forall|j: int|
                    0 <= j < old(self).spec_buffers().len() ==> #[trigger] old(self).spec_buffers()[j].spec_id() != handle,
            },
            final(self).spec_id_alloc().spec_next_id() == old(self).spec_id_alloc().spec_next_id(),
    {
        let index = match self.find_buffer_index(handle) {
            Some(i) => i,
            None => {
                return Err(Errno::ENOENT);
            },
        };
        proof {
            let b0 = old(self).spec_buffers();
            let f0 = old(self).spec_id_alloc().spec_free_ids();
            assert(b0[index as int].spec_id() == handle);
            assert(handle < old(self).spec_id_alloc().spec_next_id());
            assert forall|k: int| 0 <= k < f0.len() implies #[trigger] f0[k] != handle by {
                assert(b0[index as int].spec_id() != f0[k]);
            }
            assert(!f0.contains(handle));
        }
        self.buffers.remove(index);
        self.id_alloc.release(handle);
        proof {
            let b0 = old(self).spec_buffers();
            let f0 = old(self).spec_id_alloc().spec_free_ids();
            let b1 = self.spec_buffers();
            let f1 = self.spec_id_alloc().spec_free_ids();
            assert(first_buffer(b0, handle, index as int));
            assert(f1 == f0.push(handle));
            assert forall|i: int| 0 <= i < b1.len() implies #[trigger] b1[i] == b0[if i < index { i } else { i + 1 }] by {}
            assert forall|i: int| 0 <= i < b1.len() implies #[trigger] b1[i].spec_id() != handle by {
                let oi = if i < index { i } else { i + 1 };
                assert(b1[i] == b0[oi]);
                assert(b0[oi].spec_id() != b0[index as int].spec_id());
            }
            assert forall|i: int| 0 <= i < b1.len() implies 1 <= #[trigger] b1[i].spec_id() < self.spec_id_alloc().spec_next_id() by {
                let oi = if i < index { i } else { i + 1 };
                assert(b1[i] == b0[oi]);
            }
            assert forall|i: int| 0 <= i < b1.len() implies (#[trigger] b1[i]).spec_data().len() <= DUMB_BUFFER_SLOT_SIZE by {
                let oi = if i < index { i } else { i + 1 };
                assert(b1[i] == b0[oi]);
            }
            assert forall|i: int, j: int| 0 <= i < b1.len() && 0 <= j < b1.len() && i != j implies #[trigger] b1[i].spec_id()
                != #[trigger] b1[j].spec_id() by {
                let oi = if i < index { i } else { i + 1 };
                let oj = if j < index { j } else { j + 1 };
                assert(b1[i] == b0[oi] && b1[j] == b0[oj]);
                assert(b0[oi].spec_id() != b0[oj].spec_id());
            }
            assert forall|i: int, k: int| 0 <= i < b1.len() && 0 <= k < f1.len() implies #[trigger] b1[i].spec_id()
                != #[trigger] f1[k] by {
                let oi = if i < index { i } else { i + 1 };
                assert(b1[i] == b0[oi]);
                if k < f0.len() {
                    assert(f1[k] == f0[k]);
                    assert(b0[oi].spec_id() != f0[k]);
                } else {
                    assert(f1[k] == handle);
                    assert(b0[oi].spec_id() != b0[index as int].spec_id());
                }
            }
            assert(!dumb_live(b1, handle));
        }
        Ok(())
    }

    /// Writes `data` into buffer `handle` from byte `offset`, cut at the
    /// buffer's end; returns where and how many bytes to copy into the
    /// shared memory object. An unknown buffer is not found; an offset at
    /// or past the end is invalid.
    pub fn write_data(&mut self, handle: u32, offset: usize, data: &[u8]) -> (r: Result<(u64, usize), Errno>)
        requires
            old(self).wf(),
            offset + data@.len() <= usize::MAX,
        ensures
            final(self).wf(),
            final(self).spec_id_alloc() == old(self).spec_id_alloc(),
            final(self).spec_buffers().len() == old(self).spec_buffers().len(),
            match r {
                Ok((slot, count)) => exists|i: int| #[trigger] first_buffer(old(self).spec_buffers(), handle, i) && {
                    let b0 = old(self).spec_buffers()[i];
                    let b1 = final(self).spec_buffers()[i];
                    let end = if offset + data@.len() < b0.spec_data().len() {
                        offset + data@.len()
                    } else {
                        b0.spec_data().len() as int
                    };
                    &&& offset < b0.spec_data().len()
                    &&& count == end - offset
                    &&& slot == slot_offset_spec(handle) + offset
                    &&& b1.spec_data() == b0.spec_data().take(offset as int) + data@.take(count as int) + b0.spec_data().skip(end)
                    &&& b1.spec_id() == b0.spec_id() && b1.spec_width() == b0.spec_width() && b1.spec_height() == b0.spec_height()
                    &&& b1.spec_bpp() == b0.spec_bpp() && b1.spec_pitch() == b0.spec_pitch() && b1.spec_size() == b0.spec_size()
                    &&& forall|j: int| 0 <= j < old(self).spec_buffers().len() && j != i ==> #[trigger] final(self).spec_buffers()[j]
                        == old(self).spec_buffers()[j]
                },
                Err(e) => *final(self) == *old(self) && if exists|j: int|
                    0 <= j < old(self).spec_buffers().len() && #[trigger] old(self).spec_buffers()[j].spec_id() == handle {
                    e == Errno::EINVAL && exists|i: int| #[trigger] first_buffer(old(self).spec_buffers(), handle, i) && offset
                        >= old(self).spec_buffers()[i].spec_data().len()
                } else {
                    e == Errno::ENOENT
                },
            },
    {
        let index = match self.find_buffer_index(handle) {
            Some(i) => i,
            None => {
                return Err(Errno::ENOENT);
            },
        };
        proof {
            assert(first_buffer(old(self).spec_buffers(), handle, index as int));
            assert(1 <= self.spec_buffers()[index as int].spec_id());
        }
        let len = self.buffers[index].data.len();
        if offset >= len {
            return Err(Errno::EINVAL);
        }
        let end = if offset + data.len() < len {
            offset + data.len()
        } else {
            len
        };
        let count = end - offset;
        let ghost b0 = self.buffers@[index as int];
        let mut buffer = self.buffers.remove(index);
        let ghost d0 = buffer.data@;
        let mut k: usize = 0;
        while k < count
            invariant
                buffer.id == b0.id && buffer.width == b0.width && buffer.height == b0.height,
                buffer.bpp == b0.bpp && buffer.pitch == b0.pitch && buffer.size == b0.size,
                count == end - offset,
                offset <= end <= d0.len(),
                end <= offset + data@.len(),
                k <= count,
                buffer.data@.len() == d0.len(),
                forall|j: int| 0 <= j < offset ==> #[trigger] buffer.data@[j] == d0[j],
                forall|j: int| end <= j < d0.len() ==> #[trigger] buffer.data@[j] == d0[j],
                forall|j: int| offset <= j < offset + k ==> #[trigger] buffer.data@[j] == data@[j - offset],
                forall|j: int| offset + k <= j < end ==> #[trigger] buffer.data@[j] == d0[j],
            decreases count - k,
        {
            buffer.data.set(offset + k, data[k]);
            k = k + 1;
        }
        proof {
            assert(buffer.data@ =~= d0.take(offset as int) + data@.take(count as int) + d0.skip(end as int));
        }
        let ghost b1 = buffer;
        self.buffers.insert(index, buffer);
        proof {
            assert(b1.id == b0.id);
            assert(self.buffers@[index as int] == b1);
            assert forall|i: int| 0 <= i < self.spec_buffers().len() implies 1 <= #[trigger] self.spec_buffers()[i].spec_id() by {
                if i != index {
                    assert(self.spec_buffers()[i] == old(self).spec_buffers()[i]);
                }
            }
            assert forall|j: int| 0 <= j < old(self).spec_buffers().len() && j != index implies #[trigger] self.spec_buffers()[j]
                == old(self).spec_buffers()[j] by {}
        }
        proof {
            let k = (handle - 1) as u64;
            assert(k * 0x400_0000u64 <= 0xFFFF_FFFFu64 * 0x400_0000u64) by (nonlinear_arith)
                requires
                    k <= 0xFFFF_FFFFu64,
            ;
            assert(offset < 0x400_0000) by {
                assert(offset < d0.len());
                assert(d0.len() <= DUMB_BUFFER_SLOT_SIZE);
            }
        }
        let slot = ((handle - 1) as u64) * (DUMB_BUFFER_SLOT_SIZE as u64) + offset as u64;
        Ok((slot, count))
    }

    /// A copy of buffer `handle`; an unknown buffer is not found.
    pub fn snapshot(&self, handle: u32) -> (r: Result<DumbBufferSnapshot, Errno>)
        ensures
            match r {
                Ok(s) => exists|i: int| #[trigger] first_buffer(self.spec_buffers(), handle, i) && {
                    let b = self.spec_buffers()[i];
                    &&& s.width == b.spec_width() && s.height == b.spec_height() && s.bpp == b.spec_bpp()
                    &&& s.pitch == b.spec_pitch() && s.size == b.spec_size() && s.data@ == b.spec_data()
                },
                Err(e) => e == Errno::ENOENT && forall|j: int| 0 <= j < self.spec_buffers().len() ==> #[trigger] self.spec_buffers()[j].spec_id()
                    != handle,
            },
    {
        let index = match self.find_buffer_index(handle) {
            Some(i) => i,
            None => {
                return Err(Errno::ENOENT);
            },
        };
        let b = &self.buffers[index];
        let mut data: Vec<u8> = Vec::new();
        let mut k: usize = 0;
        while k < b.data.len()
            invariant
                k <= b.data@.len(),
                data@ == b.data@.take(k as int),
            decreases b.data@.len() - k,
        {
            data.push(b.data[k]);
            k = k + 1;
            proof {
                assert(data@ =~= b.data@.take(k as int));
            }
        }
        proof {
            assert(b.data@.take(k as int) =~= b.data@);
            assert(first_buffer(self.spec_buffers(), handle, index as int));
        }
        Ok(DumbBufferSnapshot { width: b.width, height: b.height, bpp: b.bpp, pitch: b.pitch, size: b.size, data })
    }
}

/// The id the next buffer of `m` gets.
pub open spec fn next_dumb_id(m: DumbBufferManager) -> u32 {
    if m.spec_id_alloc().spec_free_ids().len() > 0 {
        m.spec_id_alloc().spec_free_ids().last()
    } else {
        m.spec_id_alloc().spec_next_id()
    }
}

/// Handles `DRM_IOCTL_MODE_CREATE_DUMB` of the simple path: creates the
/// buffer and answers with its handle, line length and size.
pub fn handle_create_dumb(manager: &mut DumbBufferManager, args: DrmModeCreateDumb) -> (r: Result<DrmModeCreateDumb, Errno>)
    requires
        old(manager).wf(),
        old(manager).spec_id_alloc().spec_free_ids().len() > 0 || old(manager).spec_id_alloc().spec_next_id() < u32::MAX,
    ensures
        final(manager).wf(),
        if args.width == 0 || args.height == 0 || args.bpp == 0 || dumb_pitch_spec(args.width, args.bpp) * args.height
            > DUMB_BUFFER_SLOT_SIZE {
            r == Err::<DrmModeCreateDumb, Errno>(Errno::EINVAL) && *final(manager) == *old(manager)
        } else {
            &&& r matches Ok(a) && a == DrmModeCreateDumb {
                handle: next_dumb_id(*old(manager)),
                pitch: dumb_pitch_spec(args.width, args.bpp) as u32,
                size: (dumb_pitch_spec(args.width, args.bpp) * args.height) as u64,
                ..args
            }
            &&& final(manager).spec_buffers().drop_last() == old(manager).spec_buffers()
            &&& final(manager).spec_buffers().last().spec_id() == next_dumb_id(*old(manager))
            &&& final(manager).spec_buffers().last().spec_width() == args.width
            &&& final(manager).spec_buffers().last().spec_height() == args.height
            &&& final(manager).spec_buffers().last().spec_bpp() == args.bpp
        },
{
    match manager.create_dumb(args.width, args.height, args.bpp) {
        Ok((handle, pitch, _offset, size)) => Ok(DrmModeCreateDumb { handle, pitch, size, ..args }),
        Err(e) => Err(e),
    }
}

/// Handles `DRM_IOCTL_MODE_MAP_DUMB` of the simple path: answers with the
/// buffer's offset in the shared memory object.
pub fn handle_map_dumb(manager: &DumbBufferManager, args: DrmModeMapDumb) -> (r: Result<DrmModeMapDumb, Errno>)
    requires
        manager.wf(),
    ensures
        if exists|i: int| 0 <= i < manager.spec_buffers().len() && #[trigger] manager.spec_buffers()[i].spec_id() == args.handle {
            r == Ok::<DrmModeMapDumb, Errno>(DrmModeMapDumb { offset: slot_offset_spec(args.handle) as u64, ..args })
        } else {
            r == Err::<DrmModeMapDumb, Errno>(Errno::ENOENT)
        },
{
    match manager.get_offset(args.handle) {
        Ok(offset) => Ok(DrmModeMapDumb { offset, ..args }),
        Err(e) => Err(e),
    }
}

/// Handles `DRM_IOCTL_MODE_DESTROY_DUMB` of the simple path.
pub fn handle_destroy_dumb(manager: &mut DumbBufferManager, args: DrmModeDestroyDumb) -> (r: Result<(), Errno>)
    requires
        old(manager).wf(),
    ensures
        final(manager).wf(),
        match r {
            Ok(()) => (exists|i: int| #[trigger] first_buffer(old(manager).spec_buffers(), args.handle, i) && final(manager).spec_buffers()
                == old(manager).spec_buffers().remove(i)) && final(manager).spec_id_alloc().spec_free_ids()
                == old(manager).spec_id_alloc().spec_free_ids().push(args.handle) && !dumb_live(final(manager).spec_buffers(), args.handle),
            Err(e) => e == Errno::ENOENT && *final(manager) == *old(manager) && forall|j: int|
                0 <= j < old(manager).spec_buffers().len() ==> #[trigger] old(manager).spec_buffers()[j].spec_id() != args.handle,
        },
{
    manager.destroy_dumb(args.handle)
}

/// The handle of a destroyed buffer is the one the next buffer created
/// gets (handles are reused, the latest destroyed first).
pub proof fn law_destroy_then_create_reuses(before: DumbBufferManager, after: DumbBufferManager, handle: u32)
    requires
        after.spec_id_alloc().spec_free_ids() == before.spec_id_alloc().spec_free_ids().push(handle),
    ensures
        next_dumb_id(after) == handle,
{
}

/// The line length of a dumb buffer is a multiple of 4 bytes that holds a
/// line of pixels with less than 4 bytes to spare.
pub proof fn law_pitch_aligned(width: u32, bpp: u32)
    ensures
        dumb_pitch_spec(width, bpp) % 4 == 0,
        width * bpp / 8 <= dumb_pitch_spec(width, bpp) < width * bpp / 8 + 4,
{
    let b = width * bpp / 8;
    assert(0 <= width * bpp) by (nonlinear_arith);
    vstd::arithmetic::div_mod::lemma_fundamental_div_mod(b + 3, 4);
    vstd::arithmetic::div_mod::lemma_mod_bound(b + 3, 4);
    vstd::arithmetic::div_mod::lemma_mod_multiples_basic((b + 3) / 4, 4);
}

} // verus!
