//! Framebuffers of the simple mode-setting path: each stands for a dumb
//! buffer, and presenting one copies it line by line into the visible
//! framebuffer.
use vstd::prelude::*;

use crate::dumb::{first_buffer, DumbBufferManager, DumbBufferSnapshot};
use crate::error::Errno;
use crate::ioctl_defs::{DrmModeFbCmd, DrmModeGetFb, DrmModeRmFb};

verus! {

/// A framebuffer: its id, the dumb buffer behind it, and its geometry.
#[derive(Debug, Clone, Copy, PartialEq, Eq, Structural)]
pub struct FbObject {
    pub fb_id: u32,
    pub handle: u32,
    pub width: u32,
    pub height: u32,
    pub bpp: u32,
}

/// How to copy a framebuffer: `height` lines of `row_bytes`, lines
/// `src_pitch` bytes apart in the buffer and `dst_pitch` bytes apart on
/// screen.
#[derive(Debug, Clone, Copy, PartialEq, Eq, Structural)]
pub struct PresentLayout {
    pub height: usize,
    pub row_bytes: usize,
    pub src_pitch: usize,
    pub dst_pitch: usize,
}

/// What presenting needs of the visible framebuffer: its size in pixels,
/// bytes per pixel of its format, line length and total bytes.
#[derive(Debug, Clone, Copy, PartialEq, Eq, Structural)]
pub struct VisibleFb {
    pub width: usize,
    pub height: usize,
    pub bytes_per_pixel: usize,
    pub line_size: usize,
    pub size: usize,
}

/// The bytes per pixel of a depth of `bpp` bits: whole bytes only.
pub fn bytes_per_pixel(bpp: u32) -> (r: Result<usize, Errno>)
    ensures
        r == (if bpp == 0 || bpp % 8 != 0 {
            Err(Errno::EINVAL)
        } else {
            Ok((bpp / 8) as usize)
        }),
{
    if bpp == 0 || bpp % 8 != 0 {
        return Err(Errno::EINVAL);
    }
    Ok((bpp / 8) as usize)
}

/// The bytes of a line of `width` pixels of `bytes_per_pixel` bytes.
pub fn checked_row_bytes(width: u32, bytes_per_pixel: usize) -> (r: Result<usize, Errno>)
    ensures
        r == (if width * bytes_per_pixel > usize::MAX {
            Err(Errno::EINVAL)
        } else {
            Ok((width * bytes_per_pixel) as usize)
        }),
{
    match (width as usize).checked_mul(bytes_per_pixel) {
        Some(n) => Ok(n),
        None => Err(Errno::EINVAL),
    }
}

/// Why framebuffer `fb` cannot be presented from a buffer of the given
/// geometry and bytes onto `visible`, if it cannot: the buffer must match
/// the framebuffer, hold whole lines, and the screen must match its size
/// and format and hold every line.
pub open spec fn present_error_of(
    fb: FbObject,
    width: u32,
    height: u32,
    bpp: u32,
    pitch: u32,
    size: u64,
    data_len: nat,
    visible: VisibleFb,
) -> Option<Errno> {
    if width != fb.width || height != fb.height || bpp != fb.bpp {
        Some(Errno::EINVAL)
    } else if bpp == 0 || bpp % 8 != 0 {
        Some(Errno::EINVAL)
    } else {
        let bytes = bpp / 8;
        let row = width * bytes;
        if row > usize::MAX {
            Some(Errno::EINVAL)
        } else if data_len != size as usize {
            Some(Errno::EINVAL)
        } else if pitch < row {
            Some(Errno::EINVAL)
        } else if pitch * height > usize::MAX || (size as usize) < pitch * height {
            Some(Errno::EINVAL)
        } else if visible.width != fb.width || visible.height != fb.height {
            Some(Errno::EINVAL)
        } else if visible.bytes_per_pixel != bytes {
            Some(Errno::EINVAL)
        } else if visible.line_size < row {
            Some(Errno::EINVAL)
        } else if visible.line_size * height > usize::MAX || visible.size < visible.line_size * height {
            Some(Errno::EINVAL)
        } else {
            None
        }
    }
}

/// Why framebuffer `fb` cannot be presented from `snapshot` onto
/// `visible`, if it cannot.
pub open spec fn present_error(fb: FbObject, snapshot: DumbBufferSnapshot, visible: VisibleFb) -> Option<Errno> {
    present_error_of(
        fb,
        snapshot.width,
        snapshot.height,
        snapshot.bpp,
        snapshot.pitch,
        snapshot.size,
        snapshot.data@.len(),
        visible,
    )
}

/// Checks that framebuffer `fb` can be presented from `snapshot` onto
/// `visible`, and lays out the copy.
pub fn present_layout(fb: &FbObject, snapshot: &DumbBufferSnapshot, visible: &VisibleFb) -> (r: Result<PresentLayout, Errno>)
    ensures
        match present_error(*fb, *snapshot, *visible) {
            Some(e) => r == Err::<PresentLayout, Errno>(e),
            None => r == Ok::<PresentLayout, Errno>(
                PresentLayout {
                    height: snapshot.height as usize,
                    row_bytes: (snapshot.width * (snapshot.bpp / 8)) as usize,
                    src_pitch: snapshot.pitch as usize,
                    dst_pitch: visible.line_size,
                },
            ),
        },
{
    if snapshot.width != fb.width || snapshot.height != fb.height || snapshot.bpp != fb.bpp {
        return Err(Errno::EINVAL);
    }
    let bpp = match bytes_per_pixel(snapshot.bpp) {
        Ok(n) => n,
        Err(e) => {
            return Err(e);
        },
    };
    let row_bytes = match checked_row_bytes(snapshot.width, bpp) {
        Ok(n) => n,
        Err(e) => {
            return Err(e);
        },
    };
    let src_pitch = snapshot.pitch as usize;
    let height = snapshot.height as usize;
    let snapshot_size = snapshot.size as usize;
    if snapshot.data.len() != snapshot_size {
        return Err(Errno::EINVAL);
    }
    if src_pitch < row_bytes {
        return Err(Errno::EINVAL);
    }
    match src_pitch.checked_mul(height) {
        Some(needed) => {
            if snapshot_size < needed {
                return Err(Errno::EINVAL);
            }
        },
        None => {
            return Err(Errno::EINVAL);
        },
    }
    if visible.width != fb.width as usize || visible.height != fb.height as usize {
        return Err(Errno::EINVAL);
    }
    if visible.bytes_per_pixel != bpp {
        return Err(Errno::EINVAL);
    }
    if visible.line_size < row_bytes {
        return Err(Errno::EINVAL);
    }
    match visible.line_size.checked_mul(height) {
        Some(needed) => {
            if visible.size < needed {
                return Err(Errno::EINVAL);
            }
        },
        None => {
            return Err(Errno::EINVAL);
        },
    }
    Ok(PresentLayout { height, row_bytes, src_pitch, dst_pitch: visible.line_size })
}

/// Whether entry `r` of `rows` copies line `r`: from its offset in the
/// buffer to the end of its row, to its offset on screen.
pub open spec fn blit_row(rows: Seq<(usize, usize, usize)>, layout: PresentLayout, r: int) -> bool {
    &&& r * layout.src_pitch + layout.row_bytes <= usize::MAX && r * layout.dst_pitch <= usize::MAX
    &&& rows[r] == (
        (r * layout.src_pitch) as usize,
        (r * layout.src_pitch + layout.row_bytes) as usize,
        (r * layout.dst_pitch) as usize,
    )
}

/// The line copies of `layout`, as (start, end, destination) offsets, up
/// to the first line whose offsets do not fit; `complete` tells whether
/// all lines fit.
pub fn blit_rows(layout: &PresentLayout) -> (r: (Vec<(usize, usize, usize)>, bool))
    ensures
        r.0@.len() <= layout.height,
        forall|i: int| 0 <= i < r.0@.len() ==> #[trigger] blit_row(r.0@, *layout, i),
        r.1 == (r.0@.len() == layout.height),
        r.0@.len() < layout.height ==> {
            let k = r.0@.len() as int;
            k * layout.src_pitch + layout.row_bytes > usize::MAX || k * layout.dst_pitch > usize::MAX
        },
{
    let mut rows: Vec<(usize, usize, usize)> = Vec::new();
    let mut row: usize = 0;
    while row < layout.height
        invariant
            row <= layout.height,
            rows@.len() == row,
            forall|i: int| 0 <= i < row ==> #[trigger] blit_row(rows@, *layout, i),
        decreases layout.height - row,
    {
        let src = match row.checked_mul(layout.src_pitch) {
            Some(s) => s,
            None => {
                return (rows, false);
            },
        };
        let src_end = match src.checked_add(layout.row_bytes) {
            Some(e) => e,
            None => {
                return (rows, false);
            },
        };
        let dst = match row.checked_mul(layout.dst_pitch) {
            Some(d) => d,
            None => {
                return (rows, false);
            },
        };
        let ghost before = rows@;
        rows.push((src, src_end, dst));
        proof {
            assert forall|i: int| 0 <= i < row + 1 implies #[trigger] blit_row(rows@, *layout, i) by {
                if i < row {
                    assert(blit_row(before, *layout, i));
                    assert(rows@[i] == before[i]);
                }
            }
        }
        row = row + 1;
    }
    (rows, true)
}

/// The framebuffers of the simple path, the next id to hand out, and the
/// one on screen.
pub struct FbManager {
    fbs: Vec<FbObject>,
    next_id: u32,
    current_fb_id: Option<u32>,
}

/// The first framebuffer with id `fb_id` in `fbs`, if any.
pub open spec fn find_fb(fbs: Seq<FbObject>, fb_id: u32) -> Option<FbObject>
    decreases fbs.len(),
{
    if fbs.len() == 0 {
        None
    } else {
        match find_fb(fbs.drop_last(), fb_id) {
            Some(f) => Some(f),
            None => if fbs.last().fb_id == fb_id {
                Some(fbs.last())
            } else {
                None
            },
        }
    }
}

proof fn lemma_find_fb_first(fbs: Seq<FbObject>, fb_id: u32, i: int)
    requires
        0 <= i < fbs.len(),
        fbs[i].fb_id == fb_id,
        forall|j: int| 0 <= j < i ==> fbs[j].fb_id != fb_id,
    ensures
        find_fb(fbs, fb_id) == Some(fbs[i]),
    decreases fbs.len(),
{
    if i < fbs.len() - 1 {
        lemma_find_fb_first(fbs.drop_last(), fb_id, i);
    } else {
        lemma_find_fb_none(fbs.drop_last(), fb_id);
    }
}

proof fn lemma_find_fb_none(fbs: Seq<FbObject>, fb_id: u32)
    requires
        forall|j: int| 0 <= j < fbs.len() ==> fbs[j].fb_id != fb_id,
    ensures
        find_fb(fbs, fb_id) is None,
    decreases fbs.len(),
{
    if fbs.len() > 0 {
        lemma_find_fb_none(fbs.drop_last(), fb_id);
    }
}

impl FbManager {
    pub closed spec fn spec_fbs(&self) -> Seq<FbObject> {
        self.fbs@
    }

    pub closed spec fn spec_next_id(&self) -> u32 {
        self.next_id
    }

    pub closed spec fn spec_current_fb_id(&self) -> Option<u32> {
        self.current_fb_id
    }

    /// The manager's invariant: every framebuffer id was handed out (from 1
    /// below the next id), and no two framebuffers share an id.
    pub open spec fn wf(&self) -> bool {
        &&& self.spec_next_id() >= 1
        &&& forall|i: int| 0 <= i < self.spec_fbs().len() ==> 1 <= #[trigger] self.spec_fbs()[i].fb_id < self.spec_next_id()
        &&& forall|i: int, j: int| 0 <= i < self.spec_fbs().len() && 0 <= j < self.spec_fbs().len() && i != j
            ==> #[trigger] self.spec_fbs()[i].fb_id != #[trigger] self.spec_fbs()[j].fb_id
    }

    /// A manager without framebuffers; ids start at 1.
    pub fn new() -> (m: Self)
        ensures
            m.wf(),
            m.spec_fbs().len() == 0,
            m.spec_next_id() == 1,
            m.spec_current_fb_id() is None,
    {
        FbManager { fbs: Vec::new(), next_id: 1, current_fb_id: None }
    }

    /// Whether another framebuffer id can be handed out.
    pub fn can_add(&self) -> (b: bool)
        ensures
            b == (self.spec_next_id() < u32::MAX),
    {
        self.next_id < u32::MAX
    }

    /// The position of the first framebuffer with id `fb_id`, if any.
    fn position(&self, fb_id: u32) -> (r: Option<usize>)
        ensures
            match r {
                Some(i) => i < self.spec_fbs().len() && self.spec_fbs()[i as int].fb_id == fb_id && forall|j: int|
                    0 <= j < i ==> self.spec_fbs()[j].fb_id != fb_id,
                None => forall|j: int| 0 <= j < self.spec_fbs().len() ==> self.spec_fbs()[j].fb_id != fb_id,
            },
    {
        let mut i: usize = 0;
        while i < self.fbs.len()
            invariant
                i <= self.fbs@.len(),
                forall|j: int| 0 <= j < i ==> self.fbs@[j].fb_id != fb_id,
            decreases self.fbs@.len() - i,
        {
            if self.fbs[i].fb_id == fb_id {
                return Some(i);
            }
            i = i + 1;
        }
        None
    }

    /// Whether framebuffer `fb_id` exists.
    pub fn fb_exists(&self, fb_id: u32) -> (b: bool)
        ensures
            b == (find_fb(self.spec_fbs(), fb_id) is Some),
    {
        match self.position(fb_id) {
            Some(i) => {
                proof {
                    lemma_find_fb_first(self.spec_fbs(), fb_id, i as int);
                }
                true
            },
            None => {
                proof {
                    lemma_find_fb_none(self.spec_fbs(), fb_id);
                }
                false
            },
        }
    }

    /// Framebuffer `fb_id`, if it exists.
    pub fn get_fb(&self, fb_id: u32) -> (r: Option<FbObject>)
        ensures
            r == find_fb(self.spec_fbs(), fb_id),
    {
        match self.position(fb_id) {
            Some(i) => {
                proof {
                    lemma_find_fb_first(self.spec_fbs(), fb_id, i as int);
                }
                Some(self.fbs[i])
            },
            None => {
                proof {
                    lemma_find_fb_none(self.spec_fbs(), fb_id);
                }
                None
            },
        }
    }

    /// The number of framebuffers.
    pub fn fb_count(&self) -> (n: usize)
        ensures
            n == self.spec_fbs().len(),
    {
        self.fbs.len()
    }

    /// The ids of the framebuffers, in the order they were added.
    pub fn all_fb_ids(&self) -> (ids: Vec<u32>)
        ensures
            ids@ == self.spec_fbs().map_values(|f: FbObject| f.fb_id),
    {
        let mut ids: Vec<u32> = Vec::new();
        let mut i: usize = 0;
        while i < self.fbs.len()
            invariant
                i <= self.fbs@.len(),
                ids@ == self.fbs@.take(i as int).map_values(|f: FbObject| f.fb_id),
            decreases self.fbs@.len() - i,
        {
            ids.push(self.fbs[i].fb_id);
            i = i + 1;
            proof {
                assert(ids@ =~= self.fbs@.take(i as int).map_values(|f: FbObject| f.fb_id));
            }
        }
        proof {
            assert(self.fbs@.take(i as int) =~= self.fbs@);
        }
        ids
    }

    /// Adds a framebuffer for dumb buffer `handle` under the next id,
    /// which it returns.
    pub fn add_fb(&mut self, handle: u32, width: u32, height: u32, bpp: u32) -> (r: Result<u32, Errno>)
        requires
            old(self).wf(),
            old(self).spec_next_id() < u32::MAX,
        ensures
            final(self).wf(),
            find_fb(old(self).spec_fbs(), old(self).spec_next_id()) is None,
            r == Ok::<u32, Errno>(old(self).spec_next_id()),
            final(self).spec_next_id() == old(self).spec_next_id() + 1,
            final(self).spec_fbs() == old(self).spec_fbs().push(
                FbObject { fb_id: old(self).spec_next_id(), handle, width, height, bpp },
            ),
            final(self).spec_current_fb_id() == old(self).spec_current_fb_id(),
    {
        let fb_id = self.next_id;
        self.next_id = self.next_id + 1;
        self.fbs.push(FbObject { fb_id, handle, width, height, bpp });
        proof {
            let f0 = old(self).fbs@;
            let f1 = self.fbs@;
            assert forall|i: int| 0 <= i < f1.len() implies 1 <= #[trigger] f1[i].fb_id < self.next_id by {
                if i < f0.len() {
                    assert(f1[i] == f0[i]);
                }
            }
            assert forall|i: int, j: int| 0 <= i < f1.len() && 0 <= j < f1.len() && i != j implies #[trigger] f1[i].fb_id
                != #[trigger] f1[j].fb_id by {
                if i < f0.len() {
                    assert(f1[i] == f0[i]);
                }
                if j < f0.len() {
                    assert(f1[j] == f0[j]);
                }
            }
            assert forall|j: int| 0 <= j < f0.len() implies f0[j].fb_id != fb_id by {}
            lemma_find_fb_none(f0, fb_id);
        }
        Ok(fb_id)
    }

    /// Removes framebuffer `fb_id`; an unknown one is not found.
    pub fn remove_fb(&mut self, fb_id: u32) -> (r: Result<(), Errno>)
        requires
            old(self).wf(),
        ensures
            final(self).wf(),
            r is Ok ==> find_fb(final(self).spec_fbs(), fb_id) is None,
            final(self).spec_next_id() == old(self).spec_next_id(),
            final(self).spec_current_fb_id() == old(self).spec_current_fb_id(),
            match r {
                Ok(()) => exists|i: int|
                    0 <= i < old(self).spec_fbs().len() && #[trigger] old(self).spec_fbs()[i].fb_id == fb_id && (forall|j: int|
                        0 <= j < i ==> old(self).spec_fbs()[j].fb_id != fb_id) && final(self).spec_fbs() == old(self).spec_fbs().remove(i),
                Err(e) => e == Errno::ENOENT && find_fb(old(self).spec_fbs(), fb_id) is None && final(self).spec_fbs()
                    == old(self).spec_fbs(),
            },
    {
        match self.position(fb_id) {
            Some(i) => {
                self.fbs.remove(i);
                proof {
                    let f0 = old(self).fbs@;
                    let f1 = self.fbs@;
                    assert forall|k: int| 0 <= k < f1.len() implies #[trigger] f1[k] == f0[if k < i { k } else { k + 1 }] by {}
                    assert forall|k: int| 0 <= k < f1.len() implies 1 <= #[trigger] f1[k].fb_id < self.next_id by {
                        assert(f1[k] == f0[if k < i { k } else { k + 1 }]);
                    }
                    assert forall|k: int, l: int| 0 <= k < f1.len() && 0 <= l < f1.len() && k != l implies #[trigger] f1[k].fb_id
                        != #[trigger] f1[l].fb_id by {
                        let ok = if k < i { k } else { k + 1 };
                        let ol = if l < i { l } else { l + 1 };
                        assert(f1[k] == f0[ok] && f1[l] == f0[ol]);
                        assert(f0[ok].fb_id != f0[ol].fb_id);
                    }
                    assert forall|k: int| 0 <= k < f1.len() implies f1[k].fb_id != fb_id by {
                        let ok = if k < i { k } else { k + 1 };
                        assert(f1[k] == f0[ok]);
                        assert(f0[ok].fb_id != f0[i as int].fb_id);
                    }
                    lemma_find_fb_none(f1, fb_id);
                }
                Ok(())
            },
            None => {
                proof {
                    lemma_find_fb_none(self.spec_fbs(), fb_id);
                }
                Err(Errno::ENOENT)
            },
        }
    }

    /// The framebuffer on screen, if any.
    pub fn current_fb_id(&self) -> (r: Option<u32>)
        ensures
            r == self.spec_current_fb_id(),
    {
        self.current_fb_id
    }

    /// Records the framebuffer on screen.
    pub fn set_current_fb(&mut self, fb_id: Option<u32>)
        requires
            old(self).wf(),
        ensures
            final(self).wf(),
            final(self).spec_current_fb_id() == fb_id,
            final(self).spec_fbs() == old(self).spec_fbs(),
            final(self).spec_next_id() == old(self).spec_next_id(),
    {
        self.current_fb_id = fb_id;
        proof {
            assert(old(self).wf());
            assert(self.next_id == old(self).next_id);
            assert(self.fbs@ =~= old(self).fbs@);
            assert(self.spec_fbs() == old(self).spec_fbs());
            assert(self.spec_next_id() == old(self).spec_next_id());
        }
    }

    /// Prepares presenting framebuffer `fb_id`: a copy of its dumb buffer
    /// and the layout of the copy onto `visible`. An unknown framebuffer
    /// or buffer is not found; without a visible framebuffer there is no
    /// device.
    pub fn present_plan(&self, dumbs: &DumbBufferManager, fb_id: u32, visible: Option<VisibleFb>) -> (r: Result<
        (DumbBufferSnapshot, PresentLayout),
        Errno,
    >)
        ensures
            match find_fb(self.spec_fbs(), fb_id) {
                None => r matches Err(e) && e == Errno::ENOENT,
                Some(fb) => if forall|j: int| 0 <= j < dumbs.spec_buffers().len() ==> #[trigger] dumbs.spec_buffers()[j].spec_id()
                    != fb.handle {
                    r matches Err(e) && e == Errno::ENOENT
                } else {
                    match visible {
                        None => r matches Err(e) && e == Errno::ENODEV,
                        Some(v) => exists|i: int| #[trigger] first_buffer(dumbs.spec_buffers(), fb.handle, i) && {
                            let b = dumbs.spec_buffers()[i];
                            match present_error_of(
                                fb,
                                b.spec_width(),
                                b.spec_height(),
                                b.spec_bpp(),
                                b.spec_pitch(),
                                b.spec_size(),
                                b.spec_data().len(),
                                v,
                            ) {
                                Some(e) => r matches Err(e2) && e2 == e,
                                None => r matches Ok((snapshot, layout)) && {
                                    &&& snapshot.data@ == b.spec_data() && snapshot.pitch == b.spec_pitch()
                                    &&& snapshot.width == b.spec_width() && snapshot.height == b.spec_height()
                                    &&& snapshot.bpp == b.spec_bpp() && snapshot.size == b.spec_size()
                                    &&& layout == (PresentLayout {
                                        height: b.spec_height() as usize,
                                        row_bytes: (b.spec_width() * (b.spec_bpp() / 8)) as usize,
                                        src_pitch: b.spec_pitch() as usize,
                                        dst_pitch: v.line_size,
                                    })
                                },
                            }
                        },
                    }
                },
            },
    {
        let fb = match self.get_fb(fb_id) {
            Some(f) => f,
            None => {
                return Err(Errno::ENOENT);
            },
        };
        let snapshot = match dumbs.snapshot(fb.handle) {
            Ok(s) => s,
            Err(e) => {
                return Err(e);
            },
        };
        let visible = match visible {
            Some(v) => v,
            None => {
                return Err(Errno::ENODEV);
            },
        };
        match present_layout(&fb, &snapshot, &visible) {
            Ok(layout) => Ok((snapshot, layout)),
            Err(e) => Err(e),
        }
    }

    /// Handles `DRM_IOCTL_MODE_ADDFB` of the simple path: the dumb buffer
    /// must exist; returns the arguments with the new id.
    pub fn handle_add_fb(&mut self, dumbs: &DumbBufferManager, args: DrmModeFbCmd) -> (r: Result<DrmModeFbCmd, Errno>)
        requires
            dumbs.wf(),
            old(self).wf(),
            old(self).spec_next_id() < u32::MAX,
        ensures
            final(self).wf(),
            if forall|j: int| 0 <= j < dumbs.spec_buffers().len() ==> #[trigger] dumbs.spec_buffers()[j].spec_id() != args.handle {
                r == Err::<DrmModeFbCmd, Errno>(Errno::ENOENT) && *final(self) == *old(self)
            } else {
                &&& r == Ok::<DrmModeFbCmd, Errno>(DrmModeFbCmd { fb_id: old(self).spec_next_id(), ..args })
                &&& find_fb(old(self).spec_fbs(), old(self).spec_next_id()) is None
                &&& final(self).spec_fbs() == old(self).spec_fbs().push(
                    FbObject {
                        fb_id: old(self).spec_next_id(),
                        handle: args.handle,
                        width: args.width,
                        height: args.height,
                        bpp: args.bpp,
                    },
                )
                &&& final(self).spec_next_id() == old(self).spec_next_id() + 1
                &&& final(self).spec_current_fb_id() == old(self).spec_current_fb_id()
            },
    {
        match dumbs.get_offset(args.handle) {
            Ok(_) => {},
            Err(e) => {
                return Err(e);
            },
        }
        let fb_id = match self.add_fb(args.handle, args.width, args.height, args.bpp) {
            Ok(id) => id,
            Err(e) => {
                return Err(e);
            },
        };
        Ok(DrmModeFbCmd { fb_id, ..args })
    }

    /// Handles `DRM_IOCTL_MODE_RMFB` of the simple path: removes the
    /// framebuffer, which must exist.
    pub fn handle_rm_fb(&mut self, args: DrmModeRmFb) -> (r: Result<(), Errno>)
        requires
            old(self).wf(),
        ensures
            final(self).wf(),
            r is Ok ==> find_fb(final(self).spec_fbs(), args.fb_id) is None && final(self).spec_fbs().len() == old(self).spec_fbs().len() - 1,
            final(self).spec_next_id() == old(self).spec_next_id(),
            final(self).spec_current_fb_id() == old(self).spec_current_fb_id(),
            match r {
                Ok(()) => exists|i: int|
                    0 <= i < old(self).spec_fbs().len() && #[trigger] old(self).spec_fbs()[i].fb_id == args.fb_id && (forall|j: int|
                        0 <= j < i ==> old(self).spec_fbs()[j].fb_id != args.fb_id) && final(self).spec_fbs() == old(self).spec_fbs().remove(i),
                Err(e) => e == Errno::ENOENT && find_fb(old(self).spec_fbs(), args.fb_id) is None && final(self).spec_fbs()
                    == old(self).spec_fbs(),
            },
    {
        self.remove_fb(args.fb_id)
    }

    /// Handles `DRM_IOCTL_MODE_GETFB` of the simple path: the framebuffer's
    /// geometry, handle and its buffer's line length.
    pub fn handle_get_fb(&self, dumbs: &DumbBufferManager, args: DrmModeGetFb) -> (r: Result<DrmModeGetFb, Errno>)
        ensures
            match find_fb(self.spec_fbs(), args.fb_id) {
                None => r matches Err(e) && e == Errno::ENOENT,
                Some(fb) => if forall|j: int| 0 <= j < dumbs.spec_buffers().len() ==> #[trigger] dumbs.spec_buffers()[j].spec_id()
                    != fb.handle {
                    r matches Err(e) && e == Errno::ENOENT
                } else {
                    r matches Ok(a) && {
                        &&& a.fb_id == args.fb_id && a.width == fb.width && a.height == fb.height && a.bpp == fb.bpp
                        &&& a.handle == fb.handle && a.offset == 0 && a.depth == args.depth && a.pad == args.pad
                        &&& exists|i: int| #[trigger] first_buffer(dumbs.spec_buffers(), fb.handle, i) && a.pitch
                            == dumbs.spec_buffers()[i].spec_pitch()
                    }
                },
            },
    {
        let fb = match self.get_fb(args.fb_id) {
            Some(f) => f,
            None => {
                return Err(Errno::ENOENT);
            },
        };
        let snapshot = match dumbs.snapshot(fb.handle) {
            Ok(s) => s,
            Err(e) => {
                return Err(e);
            },
        };
        let mut reply = args;
        reply.width = fb.width;
        reply.height = fb.height;
        reply.bpp = fb.bpp;
        reply.pitch = snapshot.pitch;
        reply.handle = fb.handle;
        reply.offset = 0;
        Ok(reply)
    }
}

/// A framebuffer added under an id no other framebuffer has is found under
/// that id, and removing it again restores the list.
pub proof fn law_add_then_get(fbs: Seq<FbObject>, fb: FbObject)
    requires
        forall|j: int| 0 <= j < fbs.len() ==> #[trigger] fbs[j].fb_id != fb.fb_id,
    ensures
        find_fb(fbs.push(fb), fb.fb_id) == Some(fb),
        fbs.push(fb).remove(fbs.len() as int) == fbs,
{
    let s = fbs.push(fb);
    assert forall|j: int| 0 <= j < fbs.len() implies s[j].fb_id != fb.fb_id by {
        assert(s[j] == fbs[j]);
    }
    lemma_find_fb_first(s, fb.fb_id, fbs.len() as int);
    assert(s.remove(fbs.len() as int) =~= fbs);
}

} // verus!
