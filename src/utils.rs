//! Keyboard focus movement through the list.

use vstd::prelude::*;

verus! {

/// A step of the keyboard focus through the shown entries.
#[derive(Debug, Clone)]
pub enum FocusDirection {
    Up,
    Down,
}

impl FocusDirection {
    /// The focus after this step from `rhs` in a list of `length` entries:
    /// up goes one back, from the first to the last; down goes one on, from
    /// the last to the first, and stays at 0 in an empty list.
    pub fn add(self, rhs: usize, length: usize) -> (r: usize)
        requires
            self is Up ==> rhs > 0 || length > 0,
            self is Down ==> length == 0 || rhs < usize::MAX,
        ensures
            self is Up ==> r == if rhs > 0 { (rhs - 1) as usize } else { (length - 1) as usize },
            self is Down ==> r == if length > 0 { ((rhs + 1) % (length as int)) as usize } else { 0 },
    {
        match self {
            FocusDirection::Up => {
                if rhs > 0 {
                    rhs - 1
                } else {
                    length - 1
                }
            },
            FocusDirection::Down => {
                if length > 0 {
                    (rhs + 1) % length
                } else {
                    0
                }
            },
        }
    }
}

} // verus!
