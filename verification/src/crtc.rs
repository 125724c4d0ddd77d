//! CRTCs: the scan-out engines that drive a display mode.
use vstd::prelude::*;

use crate::display::DrmDisplayMode;
use crate::error::DrmError;
use crate::object_type::KmsObjectId;
use crate::property::DrmKmsObjectProp;
use crate::vblank::{is_waiting, DrmIoctlEventCtx, DrmPendingVblankEvent, DrmVblankState};

verus! {

/// The committed configuration of a CRTC.
#[derive(Debug, Clone, Copy)]
pub struct DrmCrtcState {
    pub display_mode: Option<DrmDisplayMode>,
    pub enable: bool,
    pub active: bool,
}

impl DrmCrtcState {
    /// A disabled CRTC without a mode.
    pub open spec fn spec_default() -> DrmCrtcState {
        DrmCrtcState { display_mode: None, enable: false, active: false }
    }

    pub fn set_display_mode(&mut self, display_mode: Option<DrmDisplayMode>)
        ensures
            *final(self) == (DrmCrtcState { display_mode, ..*old(self) }),
    {
        self.display_mode = display_mode;
    }

    pub fn set_enable(&mut self, enable: bool)
        ensures
            *final(self) == (DrmCrtcState { enable, ..*old(self) }),
    {
        self.enable = enable;
    }

    pub fn set_active(&mut self, active: bool)
        ensures
            *final(self) == (DrmCrtcState { active, ..*old(self) }),
    {
        self.active = active;
    }
}

impl Default for DrmCrtcState {
    fn default() -> (s: Self)
        ensures
            s == DrmCrtcState::spec_default(),
    {
        DrmCrtcState { display_mode: None, enable: false, active: false }
    }
}

/// A copy of a CRTC's configuration taken at one moment.
#[derive(Debug, Clone, Copy)]
pub struct DrmCrtcSnapshot {
    pub display_mode: Option<DrmDisplayMode>,
    pub enable: bool,
    pub active: bool,
}

impl DrmCrtcSnapshot {
    /// The snapshot of a CRTC in state `s`.
    pub open spec fn of(s: DrmCrtcState) -> DrmCrtcSnapshot {
        DrmCrtcSnapshot { display_mode: s.display_mode, enable: s.enable, active: s.active }
    }

    pub fn display_mode(&self) -> (m: Option<DrmDisplayMode>)
        ensures
            m == self.display_mode,
    {
        self.display_mode
    }

    pub fn enable(&self) -> (e: bool)
        ensures
            e == self.enable,
    {
        self.enable
    }

    pub fn active(&self) -> (a: bool)
        ensures
            a == self.active,
    {
        self.active
    }
}

/// A CRTC: its configuration, its planes and its vblank state.
pub struct DrmCrtc {
    state: DrmCrtcState,
    gamma_size_px: u32,
    primary_plane_id: KmsObjectId,
    cursor_plane_id: Option<KmsObjectId>,
    properties: DrmKmsObjectProp,
    vblank_state: DrmVblankState,
}

impl DrmCrtc {
    pub closed spec fn spec_state(&self) -> DrmCrtcState {
        self.state
    }

    pub closed spec fn spec_gamma_size(&self) -> u32 {
        self.gamma_size_px
    }

    pub closed spec fn spec_primary_plane_id(&self) -> KmsObjectId {
        self.primary_plane_id
    }

    pub closed spec fn spec_cursor_plane_id(&self) -> Option<KmsObjectId> {
        self.cursor_plane_id
    }

    pub closed spec fn spec_properties(&self) -> DrmKmsObjectProp {
        self.properties
    }

    pub closed spec fn spec_vblank(&self) -> DrmVblankState {
        self.vblank_state
    }

    /// The same CRTC in state `s`.
    pub closed spec fn spec_with_state(&self, s: DrmCrtcState) -> DrmCrtc {
        DrmCrtc { state: s, ..*self }
    }

    /// The same CRTC with vblank state `v`.
    pub closed spec fn spec_with_vblank(&self, v: DrmVblankState) -> DrmCrtc {
        DrmCrtc { vblank_state: v, ..*self }
    }

    /// What `spec_with_state` keeps and changes: the configuration becomes
    /// `s`, all else stays.
    pub proof fn lemma_with_state(&self, s: DrmCrtcState)
        ensures
            self.spec_with_state(s).spec_state() == s,
            self.spec_with_state(s).spec_gamma_size() == self.spec_gamma_size(),
            self.spec_with_state(s).spec_primary_plane_id() == self.spec_primary_plane_id(),
            self.spec_with_state(s).spec_cursor_plane_id() == self.spec_cursor_plane_id(),
            self.spec_with_state(s).spec_properties() == self.spec_properties(),
            self.spec_with_state(s).spec_vblank() == self.spec_vblank(),
    {
    }

    /// What `spec_with_vblank` keeps and changes: the vblank state becomes
    /// `v`, all else stays.
    pub proof fn lemma_with_vblank(&self, v: DrmVblankState)
        ensures
            self.spec_with_vblank(v).spec_vblank() == v,
            self.spec_with_vblank(v).spec_state() == self.spec_state(),
            self.spec_with_vblank(v).spec_gamma_size() == self.spec_gamma_size(),
            self.spec_with_vblank(v).spec_primary_plane_id() == self.spec_primary_plane_id(),
            self.spec_with_vblank(v).spec_cursor_plane_id() == self.spec_cursor_plane_id(),
            self.spec_with_vblank(v).spec_properties() == self.spec_properties(),
    {
    }

    /// Creates a disabled CRTC with a fresh vblank state.
    pub fn new(
        gamma_size_px: u32,
        primary_plane_id: KmsObjectId,
        cursor_plane_id: Option<KmsObjectId>,
        properties: DrmKmsObjectProp,
    ) -> (c: Self)
        ensures
            c.spec_state() == DrmCrtcState::spec_default(),
            c.spec_gamma_size() == gamma_size_px,
            c.spec_primary_plane_id() == primary_plane_id,
            c.spec_cursor_plane_id() == cursor_plane_id,
            c.spec_properties() == properties,
            c.spec_vblank().spec_sequence() == 0,
            c.spec_vblank().spec_last_time() == (0u64, 0u32),
            c.spec_vblank().spec_pending().len() == 0,
    {
        DrmCrtc {
            state: DrmCrtcState::default(),
            gamma_size_px,
            primary_plane_id,
            cursor_plane_id,
            properties,
            vblank_state: DrmVblankState::new(),
        }
    }

    pub fn state(&self) -> (s: &DrmCrtcState)
        ensures
            *s == self.spec_state(),
    {
        &self.state
    }

    pub fn snapshot(&self) -> (s: DrmCrtcSnapshot)
        ensures
            s == DrmCrtcSnapshot::of(self.spec_state()),
    {
        DrmCrtcSnapshot { display_mode: self.state.display_mode, enable: self.state.enable, active: self.state.active }
    }

    pub fn properties(&self) -> (p: &DrmKmsObjectProp)
        ensures
            *p == self.spec_properties(),
    {
        &self.properties
    }

    pub fn gamma_size_px(&self) -> (g: u32)
        ensures
            g == self.spec_gamma_size(),
    {
        self.gamma_size_px
    }

    pub fn primary_plane_id(&self) -> (id: KmsObjectId)
        ensures
            id == self.spec_primary_plane_id(),
    {
        self.primary_plane_id
    }

    pub fn cursor_plane_id(&self) -> (id: Option<KmsObjectId>)
        ensures
            id == self.spec_cursor_plane_id(),
    {
        self.cursor_plane_id
    }

    /// Replaces the whole configuration.
    pub fn set_state(&mut self, s: DrmCrtcState)
        ensures
            *final(self) == old(self).spec_with_state(s),
            final(self).spec_state() == s,
    {
        self.state = s;
    }

    pub fn set_display_mode(&mut self, display_mode: Option<DrmDisplayMode>)
        ensures
            *final(self) == old(self).spec_with_state(DrmCrtcState { display_mode, ..old(self).spec_state() }),
            final(self).spec_state() == (DrmCrtcState { display_mode, ..old(self).spec_state() }),
    {
        self.state.display_mode = display_mode;
    }

    pub fn set_enable(&mut self, enable: bool)
        ensures
            *final(self) == old(self).spec_with_state(DrmCrtcState { enable, ..old(self).spec_state() }),
            final(self).spec_state() == (DrmCrtcState { enable, ..old(self).spec_state() }),
    {
        self.state.enable = enable;
    }

    pub fn set_active(&mut self, active: bool)
        ensures
            *final(self) == old(self).spec_with_state(DrmCrtcState { active, ..old(self).spec_state() }),
            final(self).spec_state() == (DrmCrtcState { active, ..old(self).spec_state() }),
    {
        self.state.active = active;
    }

    /// The condition a vblank waiter waits for: once the vblank counter has
    /// reached `target_sequence`, the current sequence and the time of the
    /// last vblank; before that, nothing.
    pub fn wait_vblank(&self, target_sequence: u64) -> (r: Option<(u64, (u64, u32))>)
        ensures
            r == (if self.spec_vblank().spec_sequence() >= target_sequence {
                Some((self.spec_vblank().spec_sequence() as u64, self.spec_vblank().spec_last_time()))
            } else {
                None
            }),
    {
        let sequence = self.vblank_state.sequence() as u64;
        if sequence >= target_sequence {
            Some((sequence, *self.vblank_state.last_time()))
        } else {
            None
        }
    }

    /// Queues an event to be sent at a later vblank.
    pub fn queue_vblank_event(&mut self, event: DrmPendingVblankEvent<dyn DrmIoctlEventCtx>)
        ensures
            final(self).spec_vblank().spec_pending() == old(self).spec_vblank().spec_pending().push(event),
            final(self).spec_vblank().spec_sequence() == old(self).spec_vblank().spec_sequence(),
            final(self).spec_vblank().spec_last_time() == old(self).spec_vblank().spec_last_time(),
            final(self).spec_state() == old(self).spec_state(),
            *final(self) == old(self).spec_with_vblank(final(self).spec_vblank()),
    {
        self.vblank_state.queue_event(event);
    }

    pub fn vblank_sequence(&self) -> (s: u32)
        ensures
            s == self.spec_vblank().spec_sequence(),
    {
        self.vblank_state.sequence()
    }

    /// Counts a vblank that happened at `timestamp` (seconds, nanoseconds):
    /// advances the sequence, records the time, and sends every queued event
    /// whose target sequence has been reached, oldest first, stamped with the
    /// new sequence and the time. The others stay queued.
    pub fn handle_vblank(&mut self, timestamp: (u64, u32)) -> (r: Result<(), DrmError>)
        ensures
            r is Ok,
            final(self).spec_vblank().spec_sequence() == (if old(self).spec_vblank().spec_sequence() == u32::MAX {
                0
            } else {
                old(self).spec_vblank().spec_sequence() + 1
            }),
            final(self).spec_vblank().spec_last_time() == timestamp,
            final(self).spec_vblank().spec_pending() == old(self).spec_vblank().spec_pending().filter(
                is_waiting(final(self).spec_vblank().spec_sequence()),
            ),
            final(self).spec_state() == old(self).spec_state(),
            *final(self) == old(self).spec_with_vblank(final(self).spec_vblank()),
    {
        let sequence = self.vblank_state.increment();
        self.vblank_state.update_time(timestamp);
        let mut ready_events = self.vblank_state.take_pending_events(sequence);
        let tv_sec = (timestamp.0 % 0x1_0000_0000) as u32;
        let tv_usec = timestamp.1 / 1000;
        let n = ready_events.len();
        let mut i: usize = 0;
        while i < n
            invariant
                i <= n,
                ready_events@.len() == n,
            decreases n - i,
        {
            let mut event = ready_events.remove(i);
            event.send(sequence, tv_sec, tv_usec);
            ready_events.insert(i, event);
            i = i + 1;
        }
        Ok(())
    }
}

} // verus!
