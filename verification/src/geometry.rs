//! Integer rectangles used by planes.
use vstd::prelude::*;

verus! {

/// A rectangle with unsigned 32-bit position and size.
#[derive(Debug, Clone, Copy, PartialEq, Eq, Structural)]
pub struct RectU32 {
    pub x: u32,
    pub y: u32,
    pub w: u32,
    pub h: u32,
}

impl Default for RectU32 {
    fn default() -> (r: Self)
        ensures
            r == RectU32::zero(),
    {
        RectU32 { x: 0, y: 0, w: 0, h: 0 }
    }
}

impl RectU32 {
    pub fn new(x: u32, y: u32, w: u32, h: u32) -> (r: Self)
        ensures
            r == (RectU32 { x, y, w, h }),
    {
        RectU32 { x, y, w, h }
    }

    /// The empty rectangle at the origin.
    pub open spec fn zero() -> RectU32 {
        RectU32 { x: 0, y: 0, w: 0, h: 0 }
    }

    pub fn x(&self) -> (v: u32)
        ensures
            v == self.x,
    {
        self.x
    }

    pub fn y(&self) -> (v: u32)
        ensures
            v == self.y,
    {
        self.y
    }

    pub fn width(&self) -> (v: u32)
        ensures
            v == self.w,
    {
        self.w
    }

    pub fn height(&self) -> (v: u32)
        ensures
            v == self.h,
    {
        self.h
    }

    pub fn set_x(&mut self, x: u32)
        ensures
            *final(self) == (RectU32 { x, ..*old(self) }),
    {
        self.x = x;
    }

    pub fn set_y(&mut self, y: u32)
        ensures
            *final(self) == (RectU32 { y, ..*old(self) }),
    {
        self.y = y;
    }

    pub fn set_width(&mut self, w: u32)
        ensures
            *final(self) == (RectU32 { w, ..*old(self) }),
    {
        self.w = w;
    }

    pub fn set_height(&mut self, h: u32)
        ensures
            *final(self) == (RectU32 { h, ..*old(self) }),
    {
        self.h = h;
    }
}

} // verus!
