//! Who keeps the active virtual terminal in graphics mode: the console
//! stays in graphics mode while at least one owner holds it.
use vstd::prelude::*;

verus! {

/// The number of virtual terminals.
pub const MAX_CONSOLES: usize = 63;

/// A reason why the active console must stay in graphics mode.
#[derive(Clone, Copy, Debug, PartialEq, Eq, Structural)]
pub enum ConsoleGraphicsOwner {
    /// User space asked for graphics mode on the terminal.
    UserVt,
    /// A DRM primary-node file owns the display.
    DrmFile(u64),
    /// A DRM-backed framebuffer device file is drawing.
    Fbdev(u64),
}

/// The display mode of a console.
#[derive(Clone, Copy, Debug, PartialEq, Eq, Structural)]
pub enum ConsoleMode {
    Text,
    Graphics,
}

/// The current graphics owners, each once.
pub struct ConsoleGraphicsOwners {
    owners: Vec<ConsoleGraphicsOwner>,
}

impl ConsoleGraphicsOwners {
    pub closed spec fn spec_owners(&self) -> Set<ConsoleGraphicsOwner> {
        self.owners@.to_set()
    }

    /// Each owner is held once.
    pub closed spec fn wf(&self) -> bool {
        self.owners@.no_duplicates()
    }

    /// No owner.
    pub fn new() -> (o: Self)
        ensures
            o.wf(),
            o.spec_owners() == Set::<ConsoleGraphicsOwner>::empty(),
    {
        let o = ConsoleGraphicsOwners { owners: Vec::new() };
        proof {
            assert(o.spec_owners() =~= Set::<ConsoleGraphicsOwner>::empty());
        }
        o
    }

    fn position(&self, owner: ConsoleGraphicsOwner) -> (r: Option<usize>)
        ensures
            match r {
                Some(i) => i < self.owners@.len() && self.owners@[i as int] == owner,
                None => !self.owners@.contains(owner),
            },
    {
        let mut i: usize = 0;
        while i < self.owners.len()
            invariant
                i <= self.owners@.len(),
                forall|j: int| 0 <= j < i ==> self.owners@[j] != owner,
            decreases self.owners@.len() - i,
        {
            if self.owners[i] == owner {
                return Some(i);
            }
            i = i + 1;
        }
        None
    }

    /// Whether nobody holds graphics mode.
    pub fn is_empty(&self) -> (r: bool)
        ensures
            r == (self.spec_owners() == Set::<ConsoleGraphicsOwner>::empty()),
    {
        proof {
            if self.owners@.len() > 0 {
                assert(self.spec_owners().contains(self.owners@[0]));
            } else {
                assert(self.spec_owners() =~= Set::<ConsoleGraphicsOwner>::empty());
            }
        }
        self.owners.len() == 0
    }

    /// Adds `owner`; the console must switch to graphics mode when it is
    /// the first owner.
    pub fn enter_graphics_mode(&mut self, owner: ConsoleGraphicsOwner) -> (switch: Option<ConsoleMode>)
        requires
            old(self).wf(),
        ensures
            final(self).wf(),
            final(self).spec_owners() == old(self).spec_owners().insert(owner),
            switch == (if old(self).spec_owners() == Set::<ConsoleGraphicsOwner>::empty() {
                Some(ConsoleMode::Graphics)
            } else {
                None::<ConsoleMode>
            }),
    {
        let was_empty = self.is_empty();
        match self.position(owner) {
            Some(_) => {
                proof {
                    assert(self.spec_owners().contains(owner));
                    assert(self.spec_owners().insert(owner) =~= self.spec_owners());
                }
                None
            },
            None => {
                self.owners.push(owner);
                proof {
                    old(self).owners@.lemma_push_to_set_commute(owner);
                    assert(self.spec_owners() =~= old(self).spec_owners().insert(owner));
                    assert(self.owners@.no_duplicates()) by {
                        assert forall|i: int, j: int|
                            0 <= i < self.owners@.len() && 0 <= j < self.owners@.len() && i != j implies self.owners@[i]
                            != self.owners@[j] by {
                            if i == old(self).owners@.len() as int {
                                assert(old(self).owners@.contains(self.owners@[j]));
                            } else if j == old(self).owners@.len() as int {
                                assert(old(self).owners@.contains(self.owners@[i]));
                            }
                        }
                    }
                }
                if was_empty {
                    Some(ConsoleMode::Graphics)
                } else {
                    None
                }
            },
        }
    }

    /// Takes `owner` out again after the console failed to switch to
    /// graphics mode for it.
    pub fn enter_failed(&mut self, owner: ConsoleGraphicsOwner)
        requires
            old(self).wf(),
        ensures
            final(self).wf(),
            final(self).spec_owners() == old(self).spec_owners().remove(owner),
    {
        let _ = self.leave_graphics_mode(owner);
    }

    /// Removes `owner`; the console must return to text mode when the last
    /// owner leaves. An owner that holds nothing changes nothing.
    pub fn leave_graphics_mode(&mut self, owner: ConsoleGraphicsOwner) -> (switch: Option<ConsoleMode>)
        requires
            old(self).wf(),
        ensures
            final(self).wf(),
            final(self).spec_owners() == old(self).spec_owners().remove(owner),
            switch == (if old(self).spec_owners().contains(owner) && old(self).spec_owners().remove(owner)
                == Set::<ConsoleGraphicsOwner>::empty() {
                Some(ConsoleMode::Text)
            } else {
                None::<ConsoleMode>
            }),
    {
        match self.position(owner) {
            None => {
                proof {
                    assert(self.spec_owners().remove(owner) =~= self.spec_owners());
                }
                None
            },
            Some(i) => {
                let ghost s0 = self.owners@;
                self.owners.remove(i);
                proof {
                    assert(s0.contains(owner));
                    assert(self.owners@ == s0.remove(i as int));
                    assert(self.owners@.no_duplicates()) by {
                        assert forall|a: int, b: int|
                            0 <= a < self.owners@.len() && 0 <= b < self.owners@.len() && a != b implies self.owners@[a]
                            != self.owners@[b] by {
                            let a0 = if a < i { a } else { a + 1 };
                            let b0 = if b < i { b } else { b + 1 };
                            assert(self.owners@[a] == s0[a0]);
                            assert(self.owners@[b] == s0[b0]);
                        }
                    }
                    assert forall|x: ConsoleGraphicsOwner| self.spec_owners().contains(x) <==> old(
                        self,
                    ).spec_owners().remove(owner).contains(x) by {
                        if self.owners@.contains(x) {
                            let k = choose|k: int| 0 <= k < self.owners@.len() && self.owners@[k] == x;
                            let k0 = if k < i { k } else { k + 1 };
                            assert(s0[k0] == x);
                            assert(k0 != i);
                        }
                        if s0.contains(x) && x != owner {
                            let k = choose|k: int| 0 <= k < s0.len() && s0[k] == x;
                            assert(k != i);
                            let k1 = if k < i { k } else { k - 1 };
                            assert(self.owners@[k1] == x);
                        }
                    }
                    assert(self.spec_owners() =~= old(self).spec_owners().remove(owner));
                }
                let now_empty = self.is_empty();
                if now_empty {
                    Some(ConsoleMode::Text)
                } else {
                    None
                }
            },
        }
    }

    /// Puts `owner` back after the console failed to return to text mode.
    pub fn leave_failed(&mut self, owner: ConsoleGraphicsOwner)
        requires
            old(self).wf(),
        ensures
            final(self).wf(),
            final(self).spec_owners() == old(self).spec_owners().insert(owner),
    {
        let _ = self.enter_graphics_mode(owner);
    }
}

/// A terminal number in `1..=MAX_CONSOLES`.
#[derive(Clone, Copy, Debug, PartialEq, Eq, Structural)]
pub struct VtIndex {
    value: u8,
}

impl VtIndex {
    pub closed spec fn spec_value(&self) -> u8 {
        self.value
    }

    /// The terminal numbered `value`, if there is one.
    pub fn new(value: u8) -> (r: Option<Self>)
        ensures
            value == 0 || value > MAX_CONSOLES ==> r is None,
            1 <= value <= MAX_CONSOLES ==> (r matches Some(v) && v.spec_value() == value),
    {
        if value == 0 || value as usize > MAX_CONSOLES {
            None
        } else {
            Some(VtIndex { value })
        }
    }
}

/// Entering as a new owner and then leaving puts the owners back as they
/// were, and the console asks for text mode on leaving exactly when it
/// asked for graphics mode on entering.
pub proof fn law_enter_leave(before: Set<ConsoleGraphicsOwner>, owner: ConsoleGraphicsOwner)
    requires
        !before.contains(owner),
    ensures
        before.insert(owner).remove(owner) == before,
        before.insert(owner).contains(owner),
        (before.insert(owner).remove(owner) == Set::<ConsoleGraphicsOwner>::empty()) == (before
            == Set::<ConsoleGraphicsOwner>::empty()),
{
    assert(before.insert(owner).remove(owner) =~= before);
}

} // verus!
