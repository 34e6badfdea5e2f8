//! The content rectangle of an activity's window.

use vstd::prelude::*;

verus! {

/// The area of the window in which the activity's content is shown, in
/// pixels.
#[derive(Clone, Copy, Debug, PartialEq, Eq, Structural)]
pub struct Rect {
    pub left: u32,
    pub top: u32,
    pub right: u32,
    pub bottom: u32,
}

impl Rect {
    /// The rectangle whose four edges are all zero.
    pub open spec fn spec_empty() -> Rect {
        Rect { left: 0, top: 0, right: 0, bottom: 0 }
    }

    /// The rectangle whose four edges are all zero.
    pub fn empty() -> (r: Self)
        ensures
            r == Self::spec_empty(),
    {
        Self { left: 0, top: 0, right: 0, bottom: 0 }
    }

    /// Converts the signed edges that Android reports into the unsigned
    /// edges of a `Rect`, reinterpreting each one's bits as an unsigned
    /// number (a negative edge wraps around).
    pub fn from_edges(left: i32, top: i32, right: i32, bottom: i32) -> (r: Self)
        ensures
            r.left == left as u32,
            r.top == top as u32,
            r.right == right as u32,
            r.bottom == bottom as u32,
    {
        Self { left: left as u32, top: top as u32, right: right as u32, bottom: bottom as u32 }
    }
}

impl Default for Rect {
    fn default() -> (r: Self)
        ensures
            r == Self::spec_empty(),
    {
        Self::empty()
    }
}

} // verus!
