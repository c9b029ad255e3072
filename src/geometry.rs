use vstd::prelude::*;

verus! {

/// A rectangle as the window system reports it: edges in desktop pixels.
#[derive(Clone, Copy, Debug, PartialEq, Eq)]
pub struct Rect {
    pub left: i32,
    pub top: i32,
    pub right: i32,
    pub bottom: i32,
}

/// Signed extent from `lo` to `hi`, computed in 32-bit two's complement as the
/// window system's own rectangle arithmetic does.
pub open spec fn extent(lo: i32, hi: i32) -> i32 {
    hi.wrapping_sub(lo)
}

/// Width and height of a rectangle: `right - left` and `bottom - top`, unclamped.
pub fn rect_size(r: &Rect) -> (wh: (i32, i32))
    ensures
        wh.0 == extent(r.left, r.right),
        wh.1 == extent(r.top, r.bottom),
        i32::MIN <= r.right - r.left <= i32::MAX ==> wh.0 == r.right - r.left,
{
    (r.right.wrapping_sub(r.left), r.bottom.wrapping_sub(r.top))
}

} // verus!
