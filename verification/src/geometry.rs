//! Points, sizes and edge offsets in logical units.

use vstd::prelude::*;

verus! {

/// The unit in which every length of a layout is measured.
#[derive(Clone, Copy, Debug, PartialEq, Eq)]
pub struct LogicalPixel;

pub type LogicalLength = u32;

#[derive(Clone, Copy, Debug, PartialEq, Eq)]
pub struct LogicalPoint {
    pub x: u32,
    pub y: u32,
}

#[derive(Clone, Copy, Debug, PartialEq, Eq)]
pub struct LogicalSize {
    pub width: u32,
    pub height: u32,
}

#[derive(Clone, Copy, Debug, PartialEq, Eq)]
pub struct LogicalSideOffsets {
    pub top: u32,
    pub right: u32,
    pub bottom: u32,
    pub left: u32,
}

#[derive(Clone, Copy, Debug, PartialEq, Eq)]
pub struct Color {
    pub red: u8,
    pub green: u8,
    pub blue: u8,
    pub alpha: u8,
}

/// `a + b`, held at the largest length.
pub open spec fn sat_add(a: u32, b: u32) -> u32 {
    if a + b > u32::MAX {
        u32::MAX
    } else {
        (a + b) as u32
    }
}

/// `a - b`, held at zero.
pub open spec fn sat_sub(a: u32, b: u32) -> u32 {
    if a < b {
        0
    } else {
        (a - b) as u32
    }
}

pub open spec fn max_of(a: u32, b: u32) -> u32 {
    if a < b {
        b
    } else {
        a
    }
}

pub fn add_len(a: u32, b: u32) -> (r: u32)
    ensures
        r == sat_add(a, b),
{
    a.saturating_add(b)
}

pub fn sub_len(a: u32, b: u32) -> (r: u32)
    ensures
        r == sat_sub(a, b),
{
    a.saturating_sub(b)
}

pub fn max_len(a: u32, b: u32) -> (r: u32)
    ensures
        r == max_of(a, b),
{
    if a < b {
        b
    } else {
        a
    }
}

impl LogicalSideOffsets {
    pub open spec fn all_same(v: u32) -> LogicalSideOffsets {
        LogicalSideOffsets { top: v, right: v, bottom: v, left: v }
    }

    pub fn new_all_same(v: u32) -> (r: LogicalSideOffsets)
        ensures
            r == Self::all_same(v),
    {
        LogicalSideOffsets { top: v, right: v, bottom: v, left: v }
    }

    /// Left plus right.
    pub open spec fn spec_horizontal(self) -> u32 {
        sat_add(self.left, self.right)
    }

    /// Top plus bottom.
    pub open spec fn spec_vertical(self) -> u32 {
        sat_add(self.top, self.bottom)
    }

    pub fn horizontal(&self) -> (r: u32)
        ensures
            r == self.spec_horizontal(),
    {
        add_len(self.left, self.right)
    }

    pub fn vertical(&self) -> (r: u32)
        ensures
            r == self.spec_vertical(),
    {
        add_len(self.top, self.bottom)
    }
}

impl Color {
    pub open spec fn spec_black() -> Color {
        Color { red: 0, green: 0, blue: 0, alpha: 255 }
    }

    pub open spec fn spec_clear() -> Color {
        Color { red: 0, green: 0, blue: 0, alpha: 0 }
    }

    pub fn black() -> (r: Color)
        ensures
            r == Self::spec_black(),
    {
        Color { red: 0, green: 0, blue: 0, alpha: 255 }
    }

    pub fn clear() -> (r: Color)
        ensures
            r == Self::spec_clear(),
    {
        Color { red: 0, green: 0, blue: 0, alpha: 0 }
    }
}

} // verus!
