use vstd::prelude::*;

verus! {

/// Width and height, in cells, of a grid or of a display region.
#[derive(Debug, Clone, Copy, PartialEq, Eq, Structural)]
pub struct Area {
    pub width: u16,
    pub height: u16,
}

impl Area {
    /// Number of cells in the area.
    pub open spec fn size(self) -> nat {
        (self.width as nat) * (self.height as nat)
    }

    /// Whether `self` is at least as wide and as high as `other`.
    pub open spec fn contains(self, other: Area) -> bool {
        other.width <= self.width && other.height <= self.height
    }

    pub fn new(width: u16, height: u16) -> (r: Area)
        ensures
            r.width == width,
            r.height == height,
    {
        Area { width, height }
    }

    pub fn with_width(self, width: u16) -> (r: Area)
        ensures
            r.width == width,
            r.height == self.height,
    {
        Area::new(width, self.height)
    }

    pub fn with_height(self, height: u16) -> (r: Area)
        ensures
            r.width == self.width,
            r.height == height,
    {
        Area::new(self.width, height)
    }

    /// Grows (or, for a negative `delta`, shrinks) the width. The new width
    /// must stay within the range of `u16`.
    pub fn add_to_width(self, delta: i32) -> (r: Area)
        requires
            0 <= self.width + delta <= u16::MAX,
        ensures
            r.width == self.width + delta,
            r.height == self.height,
    {
        self.with_width((self.width as i32 + delta) as u16)
    }

    /// Grows (or, for a negative `delta`, shrinks) the height. The new
    /// height must stay within the range of `u16`.
    pub fn add_to_height(self, delta: i32) -> (r: Area)
        requires
            0 <= self.height + delta <= u16::MAX,
        ensures
            r.width == self.width,
            r.height == self.height + delta,
    {
        self.with_height((self.height as i32 + delta) as u16)
    }

    /// Number of cells, `width * height`.
    pub fn len(&self) -> (r: usize)
        ensures
            r == self.size(),
    {
        let w = self.width as u32;
        let h = self.height as u32;
        assert(w * h <= 0xFFFF * 0xFFFF) by (nonlinear_arith)
            requires
                w <= 0xFFFF,
                h <= 0xFFFF,
        ;
        (w * h) as usize
    }

    pub fn is_empty(&self) -> (r: bool)
        ensures
            r == (self.size() == 0),
    {
        self.len() == 0
    }
}

impl Default for Area {
    fn default() -> (r: Area)
        ensures
            r.width == 0,
            r.height == 0,
    {
        Area { width: 0, height: 0 }
    }
}

} // verus!
