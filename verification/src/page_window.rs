//! Where the window of a paginator lies among the books it has loaded, and which books
//! it must load before it can move.
use vstd::prelude::*;

verus! {

// ---------------------------------------------------------------------------
// The window of loaded books
// ---------------------------------------------------------------------------

/// The part of the loaded books shown: from `top`, `size` books or as many as are loaded
/// (none where `top` lies past them).
pub open spec fn window_range_spec(top: int, size: int, loaded: int) -> Option<(int, int)> {
    let end = if top + size < loaded {
        top + size
    } else {
        loaded
    };
    if top <= end {
        Some((top, end))
    } else {
        None
    }
}

/// The range of loaded books shown, if any.
pub fn window_range(top: usize, size: usize, loaded: usize) -> (r: Option<(usize, usize)>)
    requires
        top + size <= usize::MAX,
    ensures
        match window_range_spec(top as int, size as int, loaded as int) {
            Some((a, b)) => r == Some((a as usize, b as usize)),
            None => r is None,
        },
{
    let end = if top + size < loaded {
        top + size
    } else {
        loaded
    };
    if top <= end {
        Some((top, end))
    } else {
        None
    }
}

/// What scrolling down by `len` asks for first.
#[derive(Copy, Clone, Debug, PartialEq, Eq, Structural)]
pub enum ScrollPlan {
    /// The loaded books suffice: the window moves to this top.
    Move(usize),
    /// Load this many books after the last loaded one, then settle the window.
    LoadAfter(usize),
    /// Load this many books before the first loaded one; the window then starts at the
    /// first book.
    LoadBefore(usize),
}

/// Scrolling down by `len`: where the loaded books reach past the moved window, the window
/// moves; else the missing books are loaded after the end first.
pub open spec fn scroll_down_spec(top: int, size: int, len: int, loaded: int) -> ScrollPlan {
    if top + size + len < loaded {
        ScrollPlan::Move((top + len) as usize)
    } else {
        ScrollPlan::LoadAfter((top + size + len - loaded) as usize)
    }
}

pub fn plan_scroll_down(top: usize, size: usize, len: usize, loaded: usize) -> (r: ScrollPlan)
    requires
        top + size + len <= usize::MAX,
    ensures
        r == scroll_down_spec(top as int, size as int, len as int, loaded as int),
{
    if top + size + len < loaded {
        ScrollPlan::Move(top + len)
    } else {
        ScrollPlan::LoadAfter(top + size + len - loaded)
    }
}

/// After loading books after the end for a scroll down: the window ends at the last
/// book; where fewer than a window of books are loaded, the missing ones are loaded
/// before the start and the window starts at the first book.
pub open spec fn settle_down_spec(size: int, loaded: int) -> ScrollPlan {
    if loaded < size {
        ScrollPlan::LoadBefore((size - loaded) as usize)
    } else {
        ScrollPlan::Move((loaded - size) as usize)
    }
}

pub fn settle_scroll_down(size: usize, loaded: usize) -> (r: ScrollPlan)
    ensures
        r == settle_down_spec(size as int, loaded as int),
{
    if loaded < size {
        ScrollPlan::LoadBefore(size - loaded)
    } else {
        ScrollPlan::Move(loaded - size)
    }
}

/// Scrolling up by `len`: the window moves up, or, where it would pass the first loaded
/// book, the missing books are loaded before the start and the window starts at the first.
pub open spec fn scroll_up_spec(top: int, len: int) -> ScrollPlan {
    if top < len {
        ScrollPlan::LoadBefore((len - top) as usize)
    } else {
        ScrollPlan::Move((top - len) as usize)
    }
}

pub fn plan_scroll_up(top: usize, len: usize) -> (r: ScrollPlan)
    ensures
        r == scroll_up_spec(top as int, len as int),
{
    if top < len {
        ScrollPlan::LoadBefore(len - top)
    } else {
        ScrollPlan::Move(top - len)
    }
}

/// After scrolling up: where the window reaches the last loaded book, books after the end
/// are loaded (as many as the window lacks), and the window then moved up to use them.
pub open spec fn fill_after_up_spec(top: int, size: int, loaded: int) -> Option<usize> {
    if top + size >= loaded {
        Some((top + size - loaded) as usize)
    } else {
        None
    }
}

pub fn fill_after_scroll_up(top: usize, size: usize, loaded: usize) -> (r: Option<usize>)
    requires
        top + size <= usize::MAX,
    ensures
        r == fill_after_up_spec(top as int, size as int, loaded as int),
{
    if top + size >= loaded {
        Some(top + size - loaded)
    } else {
        None
    }
}

/// The top after filling below: no further down than a full last window allows.
pub open spec fn top_after_fill_spec(top: int, size: int, loaded: int) -> int {
    let last = if loaded >= size {
        loaded - size
    } else {
        0
    };
    if last < top {
        last
    } else {
        top
    }
}

pub fn top_after_fill(top: usize, size: usize, loaded: usize) -> (r: usize)
    ensures
        r == top_after_fill_spec(top as int, size as int, loaded as int),
{
    let last = if loaded >= size {
        loaded - size
    } else {
        0
    };
    if last < top {
        last
    } else {
        top
    }
}

/// After a scroll down settles with at least a window of books, the window shows exactly
/// the last window of them; a scroll up filled below shows a full window wherever enough
/// books are loaded.
pub proof fn lemma_settled_window_full(top: usize, size: usize, loaded: usize)
    requires
        size <= loaded,
    ensures
        settle_down_spec(size as int, loaded as int) matches ScrollPlan::Move(t) ==> window_range_spec(
            t as int,
            size as int,
            loaded as int,
        ) == Some(((loaded - size) as int, loaded as int)),
        window_range_spec(top_after_fill_spec(top as int, size as int, loaded as int), size as int, loaded as int) matches Some((a, b))
            && b - a == size,
{
}

} // verus!
