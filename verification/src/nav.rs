//! Navigation state for one slide within a deck.

use vstd::prelude::*;

verus! {

/// Navigation context computed from a slide's zero-based index and the deck
/// size: the 1-based current number, the neighbouring numbers where they
/// exist, and the boundary flags.  It is never stored; every render pass
/// recomputes it.
#[derive(Clone, Copy, Debug)]
pub struct SlideNav {
    pub current: usize,
    pub prev: Option<usize>,
    pub next: Option<usize>,
    pub is_first: bool,
    pub is_last: bool,
    pub total: usize,
}

impl SlideNav {
    /// Compute the navigation context for the slide at `index` in a deck of
    /// `total` slides.
    pub fn new(index: usize, total: usize) -> (r: SlideNav)
        requires
            index < total,
        ensures
            r.current == index + 1,
            r.prev == if index == 0 {
                Option::<usize>::None
            } else {
                Option::<usize>::Some(index)
            },
            r.next == if index + 1 < total {
                Option::<usize>::Some((index + 2) as usize)
            } else {
                Option::<usize>::None
            },
            r.is_first == (index == 0),
            r.is_last == (index + 1 == total),
            r.total == total,
    {
        let current = index + 1;
        SlideNav {
            current,
            prev: if current > 1 {
                Some(current - 1)
            } else {
                None
            },
            next: if current < total {
                Some(current + 1)
            } else {
                None
            },
            is_first: current == 1,
            is_last: current == total,
            total,
        }
    }
}

} // verus!
