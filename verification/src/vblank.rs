//! Vertical blanking state of a CRTC and the events it delivers.
use std::collections::VecDeque;
use std::sync::Arc;
use vstd::prelude::*;

use crate::object_type::KmsObjectId;

verus! {

/// Size in bytes of an encoded vblank event.
pub const DRM_VBLANK_EVENT_SIZE: u32 = 32;

/// Receives encoded vblank events on behalf of userspace.
///
/// The vblank code sends events through this callback without knowing the
/// file that will deliver them.
pub trait DrmIoctlEventCtx: Send + Sync {
    fn vblank_event_callback(&self, bytes: &[u8]);
}

/// Kinds of DRM events.
#[derive(Debug, Clone, Copy, PartialEq, Eq, Structural)]
pub enum DrmEventType {
    Vblank,
    FlipComplete,
    CrtcSequence,
}

impl DrmEventType {
    /// The `DRM_EVENT_*` number of the kind.
    pub open spec fn spec_value(self) -> u32 {
        match self {
            DrmEventType::Vblank => 1,
            DrmEventType::FlipComplete => 2,
            DrmEventType::CrtcSequence => 3,
        }
    }

    pub fn value(self) -> (v: u32)
        ensures
            v == self.spec_value(),
    {
        match self {
            DrmEventType::Vblank => 1,
            DrmEventType::FlipComplete => 2,
            DrmEventType::CrtcSequence => 3,
        }
    }
}

/// The header of every DRM event.
#[derive(Debug, Clone, Copy, PartialEq, Eq, Structural)]
pub struct DrmEventBase {
    pub type_: u32,
    pub length: u32,
}

impl DrmEventBase {
    pub fn new(type_: DrmEventType, length: u32) -> (b: Self)
        ensures
            b.type_ == type_.spec_value(),
            b.length == length,
    {
        Self { type_: type_.value(), length }
    }

    pub fn type_u32(&self) -> (t: u32)
        ensures
            t == self.type_,
    {
        self.type_
    }

    pub fn length(&self) -> (l: u32)
        ensures
            l == self.length,
    {
        self.length
    }
}

/// A vblank or flip-complete event (`struct drm_event_vblank`).
#[derive(Debug, Clone, Copy, PartialEq, Eq, Structural)]
pub struct DrmVblankEvent {
    pub base: DrmEventBase,
    pub user_data: u64,
    pub tv_sec: u32,
    pub tv_usec: u32,
    pub sequence: u32,
    pub crtc_id: u32,
}

impl DrmVblankEvent {
    fn new(event: DrmEventBase, user_data: u64, crtc_id: u32) -> (e: Self)
        ensures
            e == (DrmVblankEvent { base: event, user_data, tv_sec: 0, tv_usec: 0, sequence: 0, crtc_id }),
    {
        Self { base: event, user_data, tv_sec: 0, tv_usec: 0, sequence: 0, crtc_id }
    }

    /// Records the sequence number and the time at which the event fired.
    pub fn complete(&mut self, sequence: u32, tv_sec: u32, tv_usec: u32)
        ensures
            *final(self) == (DrmVblankEvent { sequence, tv_sec, tv_usec, ..*old(self) }),
    {
        self.sequence = sequence;
        self.tv_sec = tv_sec;
        self.tv_usec = tv_usec;
    }
}

/// The little-endian bytes of a 32-bit value.
pub open spec fn le_bytes_u32(v: u32) -> Seq<u8> {
    seq![(v % 0x100) as u8, (v / 0x100 % 0x100) as u8, (v / 0x10000 % 0x100) as u8, (v / 0x1000000) as u8]
}

/// The little-endian bytes of a 64-bit value.
pub open spec fn le_bytes_u64(v: u64) -> Seq<u8> {
    le_bytes_u32((v % 0x1_0000_0000) as u32) + le_bytes_u32((v / 0x1_0000_0000) as u32)
}

/// The wire form of an event: its fields in declaration order, each in
/// little-endian byte order, the byte order of every target the kernel
/// runs on.
pub open spec fn event_bytes_spec(e: DrmVblankEvent) -> Seq<u8> {
    le_bytes_u32(e.base.type_) + le_bytes_u32(e.base.length) + le_bytes_u64(e.user_data) + le_bytes_u32(e.tv_sec)
        + le_bytes_u32(e.tv_usec) + le_bytes_u32(e.sequence) + le_bytes_u32(e.crtc_id)
}

fn push_u32(bytes: &mut Vec<u8>, v: u32)
    ensures
        final(bytes)@ == old(bytes)@ + le_bytes_u32(v),
{
    bytes.push((v % 0x100) as u8);
    bytes.push((v / 0x100 % 0x100) as u8);
    bytes.push((v / 0x10000 % 0x100) as u8);
    bytes.push((v / 0x1000000) as u8);
    assert(bytes@ =~= old(bytes)@ + le_bytes_u32(v));
}

/// Encodes an event into its wire form.
pub fn encode_vblank_event(e: &DrmVblankEvent) -> (bytes: Vec<u8>)
    ensures
        bytes@ == event_bytes_spec(*e),
        bytes@.len() == 32,
{
    let mut bytes: Vec<u8> = Vec::new();
    push_u32(&mut bytes, e.base.type_);
    push_u32(&mut bytes, e.base.length);
    push_u32(&mut bytes, (e.user_data % 0x1_0000_0000) as u32);
    push_u32(&mut bytes, (e.user_data / 0x1_0000_0000) as u32);
    push_u32(&mut bytes, e.tv_sec);
    push_u32(&mut bytes, e.tv_usec);
    push_u32(&mut bytes, e.sequence);
    push_u32(&mut bytes, e.crtc_id);
    assert(bytes@ =~= event_bytes_spec(*e));
    bytes
}

/// An event waiting for its CRTC to reach `target_sequence`.
pub struct DrmPendingVblankEvent<C: DrmIoctlEventCtx + ?Sized> {
    pub target_sequence: u32,
    pub event: DrmVblankEvent,
    pub ctx: Arc<C>,
}

impl<C: DrmIoctlEventCtx + ?Sized> DrmPendingVblankEvent<C> {
    /// Creates a pending vblank event.
    pub fn new_vblank(target_sequence: u32, user_data: u64, crtc_id: KmsObjectId, ctx: Arc<C>) -> (p: Self)
        ensures
            p.target_sequence == target_sequence,
            p.event == (DrmVblankEvent {
                base: DrmEventBase { type_: 1, length: DRM_VBLANK_EVENT_SIZE },
                user_data,
                tv_sec: 0,
                tv_usec: 0,
                sequence: 0,
                crtc_id,
            }),
            p.ctx == ctx,
    {
        let event = DrmVblankEvent::new(
            DrmEventBase::new(DrmEventType::Vblank, DRM_VBLANK_EVENT_SIZE),
            user_data,
            crtc_id,
        );
        Self { target_sequence, event, ctx }
    }

    /// Creates a pending flip-complete event.
    pub fn new_flip_complete(
        target_sequence: u32,
        user_data: u64,
        crtc_id: KmsObjectId,
        ctx: Arc<C>,
    ) -> (p: Self)
        ensures
            p.target_sequence == target_sequence,
            p.event == (DrmVblankEvent {
                base: DrmEventBase { type_: 2, length: DRM_VBLANK_EVENT_SIZE },
                user_data,
                tv_sec: 0,
                tv_usec: 0,
                sequence: 0,
                crtc_id,
            }),
            p.ctx == ctx,
    {
        let event = DrmVblankEvent::new(
            DrmEventBase::new(DrmEventType::FlipComplete, DRM_VBLANK_EVENT_SIZE),
            user_data,
            crtc_id,
        );
        Self { target_sequence, event, ctx }
    }

    /// Completes the event and hands its wire form to the event context.
    pub fn send(&mut self, sequence: u32, tv_sec: u32, tv_usec: u32)
        ensures
            final(self).event == (DrmVblankEvent { sequence, tv_sec, tv_usec, ..old(self).event }),
            final(self).target_sequence == old(self).target_sequence,
            final(self).ctx == old(self).ctx,
    {
        self.event.complete(sequence, tv_sec, tv_usec);
        let bytes = encode_vblank_event(&self.event);
        self.ctx.vblank_event_callback(bytes.as_slice());
    }
}

/// The events whose target sequence has been reached at `sequence`.
pub open spec fn is_ready(sequence: u32) -> spec_fn(DrmPendingVblankEvent<dyn DrmIoctlEventCtx>) -> bool {
    |e: DrmPendingVblankEvent<dyn DrmIoctlEventCtx>| e.target_sequence <= sequence
}

/// The events still waiting at `sequence`.
pub open spec fn is_waiting(sequence: u32) -> spec_fn(DrmPendingVblankEvent<dyn DrmIoctlEventCtx>) -> bool {
    |e: DrmPendingVblankEvent<dyn DrmIoctlEventCtx>| e.target_sequence > sequence
}

/// The vblank counter, the time of the last vblank and the queued events
/// of one CRTC.
pub struct DrmVblankState {
    sequence: u32,
    last_time: (u64, u32),
    pending_events: VecDeque<DrmPendingVblankEvent<dyn DrmIoctlEventCtx>>,
}

impl DrmVblankState {
    pub closed spec fn spec_sequence(&self) -> u32 {
        self.sequence
    }

    /// The time of the last vblank, as seconds and nanoseconds.
    pub closed spec fn spec_last_time(&self) -> (u64, u32) {
        self.last_time
    }

    /// The queued events, oldest first.
    pub closed spec fn spec_pending(&self) -> Seq<DrmPendingVblankEvent<dyn DrmIoctlEventCtx>> {
        self.pending_events@
    }

    /// Creates a vblank state at sequence 0 with nothing queued.
    pub fn new() -> (s: Self)
        ensures
            s.spec_sequence() == 0,
            s.spec_last_time() == (0u64, 0u32),
            s.spec_pending() == Seq::<DrmPendingVblankEvent<dyn DrmIoctlEventCtx>>::empty(),
    {
        Self { sequence: 0, last_time: (0, 0), pending_events: VecDeque::new() }
    }

    pub fn sequence(&self) -> (s: u32)
        ensures
            s == self.spec_sequence(),
    {
        self.sequence
    }

    /// Returns the time of the last vblank as seconds and nanoseconds.
    pub fn last_time(&self) -> (t: &(u64, u32))
        ensures
            *t == self.spec_last_time(),
    {
        &self.last_time
    }

    /// Counts one vblank; returns the new sequence number. The counter
    /// wraps around at `u32::MAX`.
    pub fn increment(&mut self) -> (s: u32)
        ensures
            s == (if old(self).spec_sequence() == u32::MAX { 0 } else { old(self).spec_sequence() + 1 }),
            final(self).spec_sequence() == s,
            final(self).spec_last_time() == old(self).spec_last_time(),
            final(self).spec_pending() == old(self).spec_pending(),
    {
        self.sequence = self.sequence.wrapping_add(1);
        self.sequence
    }

    /// Queues an event behind the ones already queued.
    pub fn queue_event(&mut self, event: DrmPendingVblankEvent<dyn DrmIoctlEventCtx>)
        ensures
            final(self).spec_pending() == old(self).spec_pending().push(event),
            final(self).spec_sequence() == old(self).spec_sequence(),
            final(self).spec_last_time() == old(self).spec_last_time(),
    {
        self.pending_events.push_back(event);
    }

    /// Removes and returns the events whose target sequence is at most
    /// `sequence`, oldest first; the others stay queued in their order.
    pub fn take_pending_events(&mut self, sequence: u32) -> (ready: Vec<DrmPendingVblankEvent<dyn DrmIoctlEventCtx>>)
        ensures
            ready@ == old(self).spec_pending().filter(is_ready(sequence)),
            final(self).spec_pending() == old(self).spec_pending().filter(is_waiting(sequence)),
            final(self).spec_sequence() == old(self).spec_sequence(),
            final(self).spec_last_time() == old(self).spec_last_time(),
    {
        let ghost all = self.pending_events@;
        let mut ready_events: Vec<DrmPendingVblankEvent<dyn DrmIoctlEventCtx>> = Vec::new();
        let mut pending_events: VecDeque<DrmPendingVblankEvent<dyn DrmIoctlEventCtx>> = VecDeque::new();
        let ghost mut taken: int = 0;
        while self.pending_events.len() > 0
            invariant
                0 <= taken <= all.len(),
                self.pending_events@ == all.subrange(taken, all.len() as int),
                ready_events@ == all.take(taken).filter(is_ready(sequence)),
                pending_events@ == all.take(taken).filter(is_waiting(sequence)),
                self.sequence == old(self).sequence,
                self.last_time == old(self).last_time,
            decreases all.len() - taken,
        {
            let event = self.pending_events.pop_front().unwrap();
            proof {
                assert(event == all[taken]);
                assert(all.take(taken + 1).drop_last() =~= all.take(taken));
                reveal_with_fuel(Seq::filter, 1);
                taken = taken + 1;
                assert(self.pending_events@ =~= all.subrange(taken, all.len() as int));
            }
            if event.target_sequence <= sequence {
                ready_events.push(event);
            } else {
                pending_events.push_back(event);
            }
        }
        proof {
            assert(all.take(taken) =~= all);
        }
        self.pending_events = pending_events;
        ready_events
    }

    /// Records the time of the latest vblank.
    pub fn update_time(&mut self, time: (u64, u32))
        ensures
            final(self).spec_last_time() == time,
            final(self).spec_sequence() == old(self).spec_sequence(),
            final(self).spec_pending() == old(self).spec_pending(),
    {
        self.last_time = time;
    }
}

/// Taking the ready events at some sequence splits the queue: every queued
/// event is either returned or stays queued, and the returned ones are those
/// whose target has been reached.
pub proof fn law_take_pending_partitions(pending: Seq<DrmPendingVblankEvent<dyn DrmIoctlEventCtx>>, sequence: u32)
    ensures
        pending.filter(is_ready(sequence)).len() + pending.filter(is_waiting(sequence)).len() == pending.len(),
        forall|i: int| 0 <= i < pending.filter(is_ready(sequence)).len()
            ==> #[trigger] pending.filter(is_ready(sequence))[i].target_sequence <= sequence,
        forall|i: int| 0 <= i < pending.filter(is_waiting(sequence)).len()
            ==> #[trigger] pending.filter(is_waiting(sequence))[i].target_sequence > sequence,
    decreases pending.len(),
{
    reveal_with_fuel(Seq::filter, 1);
    pending.filter_lemma(is_ready(sequence));
    pending.filter_lemma(is_waiting(sequence));
    if pending.len() > 0 {
        law_take_pending_partitions(pending.drop_last(), sequence);
    }
}

} // verus!
