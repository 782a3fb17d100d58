use vstd::prelude::*;

verus! {

/// A native monitor of the platform.
pub trait NativeMonitor {
    fn get_id(&self) -> MonitorId;
    fn get_work_area(&self) -> Area;
}

/// Identifier of a monitor (the native monitor handle).
#[derive(Clone, Copy, Debug, PartialEq, Eq, Structural)]
pub struct MonitorId(pub isize);

/// Identifier of a native window (the native window handle).
#[derive(Clone, Copy, Debug, PartialEq, Eq, Structural, Hash)]
pub struct WindowId(pub usize);

/// A rectangle given by its size and its top left corner.
#[derive(Clone, Copy, Debug, PartialEq, Eq, Structural)]
pub struct Area {
    pub size: Size,
    pub pos: Position,
}

impl Area {
    pub fn new(size: Size, pos: Position) -> (r: Self)
        ensures
            r.size == size,
            r.pos == pos,
    {
        Self { size, pos }
    }
}

#[derive(Clone, Copy, Debug, PartialEq, Eq, Structural)]
pub struct Size {
    pub width: usize,
    pub height: usize,
}

impl Size {
    pub fn new(width: usize, height: usize) -> (r: Self)
        ensures
            r.width == width,
            r.height == height,
    {
        Self { width, height }
    }

    /// Component-wise difference of two sizes.
    pub fn sub(self, rhs: Self) -> (r: Self)
        requires
            rhs.width <= self.width,
            rhs.height <= self.height,
        ensures
            r.width == self.width - rhs.width,
            r.height == self.height - rhs.height,
    {
        Self { width: self.width - rhs.width, height: self.height - rhs.height }
    }
}

#[derive(Clone, Copy, Debug, PartialEq, Eq, Structural)]
pub struct Position {
    pub x: isize,
    pub y: isize,
}

impl Position {
    pub fn new(x: isize, y: isize) -> (r: Self)
        ensures
            r.x == x,
            r.y == y,
    {
        Self { x, y }
    }
}

/// A rectangle given by its four edges.
#[derive(Clone, Copy, Debug, PartialEq, Eq, Structural)]
pub struct Rect {
    pub left: isize,
    pub right: isize,
    pub top: isize,
    pub bottom: isize,
}

pub open spec fn abs(x: int) -> int {
    if x < 0 { -x } else { x }
}

impl Rect {
    /// The width and height of the rectangle, whichever way round its edges are given.
    pub fn as_size(self) -> (r: Size)
        requires
            isize::MIN < self.right - self.left <= isize::MAX,
            isize::MIN < self.top - self.bottom <= isize::MAX,
        ensures
            r.width == abs(self.right - self.left),
            r.height == abs(self.top - self.bottom),
    {
        let w: isize = self.right - self.left;
        let h: isize = self.top - self.bottom;
        let w_abs: isize = if w < 0 { -w } else { w };
        let h_abs: isize = if h < 0 { -h } else { h };
        Size::new(w_abs as usize, h_abs as usize)
    }

    /// Edge-wise difference of two rectangles.
    pub fn sub(self, rhs: Self) -> (r: Self)
        requires
            isize::MIN <= self.left - rhs.left <= isize::MAX,
            isize::MIN <= self.right - rhs.right <= isize::MAX,
            isize::MIN <= self.top - rhs.top <= isize::MAX,
            isize::MIN <= self.bottom - rhs.bottom <= isize::MAX,
        ensures
            r.left == self.left - rhs.left,
            r.right == self.right - rhs.right,
            r.top == self.top - rhs.top,
            r.bottom == self.bottom - rhs.bottom,
    {
        Self {
            left: self.left - rhs.left,
            right: self.right - rhs.right,
            top: self.top - rhs.top,
            bottom: self.bottom - rhs.bottom,
        }
    }
}

} // verus!
