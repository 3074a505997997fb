use vstd::prelude::*;

use std::collections::BTreeSet;

verus! {

/// The direction a range selection was extended in.
#[derive(Copy, Clone, Debug, PartialEq, Eq, Structural)]
pub enum Direction {
    Up,
    Down,
}

/// The items selected: one index, a half-open range grown in a direction, or a set.
#[derive(Clone, Debug, PartialEq, Eq)]
pub enum Selection {
    Single(usize),
    Range(usize, usize, Direction),
    Multi(BTreeSet<usize>, Direction),
}

pub ghost enum SelectionV {
    Single(usize),
    Range(usize, usize, Direction),
    Multi(Set<usize>, Direction),
}

impl View for Selection {
    type V = SelectionV;

    open spec fn view(&self) -> SelectionV {
        match self {
            Selection::Single(x) => SelectionV::Single(*x),
            Selection::Range(s, e, d) => SelectionV::Range(*s, *e, *d),
            Selection::Multi(t, d) => SelectionV::Multi(t@, *d),
        }
    }
}

pub open spec fn selection_view(s: Option<Selection>) -> Option<SelectionV> {
    match s {
        Some(x) => Some(x@),
        None => None,
    }
}

/// The state of a cursor: the first visible index, how many items the window shows, how
/// many items there are (as the cursor and as its window know it), and the selection.
pub ghost struct CursorV {
    pub top: usize,
    pub size: usize,
    pub height: usize,
    pub window_height: usize,
    pub selected: Option<SelectionV>,
}

/// `a - b`, or 0 where that is negative.
pub open spec fn sat_sub(a: int, b: int) -> int {
    if a >= b {
        a - b
    } else {
        0
    }
}

pub open spec fn min(a: int, b: int) -> int {
    if a <= b {
        a
    } else {
        b
    }
}

/// Whether a selection lies within `height` items.
pub open spec fn selection_in_bounds(s: SelectionV, height: int) -> bool {
    match s {
        SelectionV::Single(x) => x < height,
        SelectionV::Range(s, e, _) => s < e <= height,
        SelectionV::Multi(t, _) => (exists|x: usize| t.contains(x)) && forall|x: usize|
            t.contains(x) ==> x < height,
    }
}

/// The cursor's invariant: nothing is selected when there are no items, the selection lies
/// within the items, and the window starts at 0 unless it starts before the last item and
/// is full.
pub open spec fn cursor_wf(v: CursorV) -> bool {
    &&& v.window_height == v.height
    &&& (v.height == 0 ==> v.selected is None)
    &&& (v.selected matches Some(s) ==> selection_in_bounds(s, v.height as int))
    &&& (v.top >= v.window_height ==> v.top == 0)
    &&& (v.top + v.size > v.window_height ==> v.top == 0)
}

pub open spec fn with_top(v: CursorV, top: int) -> CursorV {
    CursorV { top: top as usize, ..v }
}

pub open spec fn with_selected(v: CursorV, s: Option<SelectionV>) -> CursorV {
    CursorV { selected: s, ..v }
}

/// The window moved down by `inc`, but not past the point where its last place shows the
/// last item (or to 0 where the items do not fill it); and whether it reports a change.
pub open spec fn scroll_down_post(v: CursorV, inc: int) -> (CursorV, bool) {
    if v.top + inc + v.size > v.window_height {
        let t = sat_sub(v.window_height as int, v.size as int);
        (with_top(v, t), t != v.top)
    } else {
        (with_top(v, v.top + inc), true)
    }
}

/// The window moved up by `inc`, stopping at 0; and whether it moved.
pub open spec fn scroll_up_post(v: CursorV, inc: int) -> (CursorV, bool) {
    let t = sat_sub(v.top as int, inc);
    (with_top(v, t), t != v.top)
}

/// Whether the window is at the end: the last item is in the window (it holds all items,
/// or it reaches the last item).
pub open spec fn at_end_spec(v: CursorV) -> bool {
    v.size >= v.window_height || v.top + v.size >= v.window_height
}

/// The index `select_relative(index)` selects: `index` places into the window (the last
/// place where `index` is beyond it), limited to the last item where it lies beyond `height`.
pub open spec fn relative_target(v: CursorV, index: int) -> int {
    let i0 = (if index > v.size {
        sat_sub(v.size as int, 1)
    } else {
        index
    }) + v.top;
    if i0 > v.height {
        sat_sub(v.height as int, 1)
    } else {
        i0
    }
}

pub open spec fn select_relative_post(v: CursorV, index: int) -> (CursorV, bool) {
    let ind = relative_target(v, index);
    (
        with_selected(v, Some(SelectionV::Single(ind as usize))),
        match v.selected {
            Some(SelectionV::Single(o)) => o != ind,
            _ => true,
        },
    )
}

/// `select_index_and_make_visible(index)`: selects `index` and moves the window so that it
/// shows it: to the first window or the last where it lies there, else just far enough (a
/// window of no places stays where it is).
pub open spec fn select_visible_post(v: CursorV, index: int) -> CursorV {
    if v.height == 0 {
        with_selected(v, None)
    } else {
        let w = with_selected(v, Some(SelectionV::Single(index as usize)));
        if index < v.size {
            with_top(w, 0)
        } else if index + v.size > v.height {
            with_top(w, v.height - v.size)
        } else if index < v.top {
            with_top(w, index)
        } else if index >= v.top + v.size && v.size > 0 {
            with_top(w, index + 1 - v.size)
        } else {
            w
        }
    }
}

pub open spec fn select_index_post(v: CursorV, index: int) -> CursorV {
    if v.height == 0 {
        with_selected(v, None)
    } else {
        with_selected(v, Some(SelectionV::Single(index as usize)))
    }
}

/// Whether a selection is a single index or none: the moves that do not handle other
/// selections need this.
pub open spec fn single_or_none(s: Option<SelectionV>) -> bool {
    match s {
        None => true,
        Some(SelectionV::Single(_)) => true,
        _ => false,
    }
}

pub open spec fn not_multi(s: Option<SelectionV>) -> bool {
    !(s matches Some(SelectionV::Multi(_, _)))
}

/// Collapses a range to its last index, moving the window to show it.
pub open spec fn collapse_to_end(v: CursorV, end: int) -> (CursorV, bool) {
    let ind = sat_sub(end, 1);
    let w = with_selected(v, Some(SelectionV::Single(ind as usize)));
    if ind < v.top {
        (with_top(w, ind), true)
    } else if sat_sub(ind, v.top as int) >= v.size {
        scroll_down_post(w, sat_sub(ind, v.top as int) - v.size + 1)
    } else {
        (w, true)
    }
}

/// `down()`: selects the first item in the window if nothing is selected, moves a single
/// selection down by one (scrolling to keep it visible), and collapses a range to its last
/// index.
pub open spec fn down_post(v: CursorV) -> (CursorV, bool) {
    if v.height == 0 || v.size == 0 {
        (v, false)
    } else {
        match v.selected {
            None => (with_selected(v, Some(SelectionV::Single(v.top))), true),
            Some(SelectionV::Single(s)) => if s + 1 >= v.height {
                (v, false)
            } else {
                let w = if sat_sub(s + 1, v.top as int) >= v.size {
                    scroll_down_post(v, 1).0
                } else {
                    v
                };
                (with_selected(w, Some(SelectionV::Single((s + 1) as usize))), true)
            },
            Some(SelectionV::Range(_, end, _)) => collapse_to_end(v, end as int),
            Some(SelectionV::Multi(_, _)) => (v, false),
        }
    }
}

/// `up()`: selects the first item in the window if nothing is selected, moves a single
/// selection up by one (scrolling to keep it visible), and collapses a range to its first
/// index.
pub open spec fn up_post(v: CursorV) -> (CursorV, bool) {
    if v.height == 0 || v.size == 0 {
        (v, false)
    } else {
        match v.selected {
            None => (with_selected(v, Some(SelectionV::Single(v.top))), true),
            Some(SelectionV::Single(s)) => if s == 0 {
                (v, false)
            } else if s > v.top {
                (with_selected(v, Some(SelectionV::Single((s - 1) as usize))), true)
            } else if v.top > 0 {
                (
                    with_top(
                        with_selected(v, Some(SelectionV::Single((s - 1) as usize))),
                        v.top - 1,
                    ),
                    true,
                )
            } else {
                (v, false)
            },
            Some(SelectionV::Range(start, _, _)) => {
                let w = with_selected(v, Some(SelectionV::Single(start)));
                (
                    if start < v.top {
                        with_top(w, start as int)
                    } else {
                        w
                    },
                    true,
                )
            },
            Some(SelectionV::Multi(_, _)) => (v, false),
        }
    }
}

/// Scrolls down just far enough to show `ind` where it lies past the window.
pub open spec fn show_below(v: CursorV, ind: int) -> CursorV {
    if sat_sub(ind, v.top as int) >= v.size {
        scroll_down_post(v, sat_sub(ind, v.top as int) - v.size + 1).0
    } else {
        v
    }
}

/// `select_down(inc)`: grows the selection downwards by `inc` (shrinking an upward range
/// first), keeping its end visible.
pub open spec fn select_down_post(v: CursorV, inc: int) -> (CursorV, bool) {
    let last = sat_sub(v.height as int, 1);
    if v.height == 0 || v.size == 0 {
        (v, false)
    } else {
        match v.selected {
            None => (with_selected(v, Some(SelectionV::Single(v.top))), true),
            Some(SelectionV::Single(s)) => if s + 1 >= v.height {
                (v, false)
            } else {
                let new_s = min(s + inc, last);
                (
                    with_selected(
                        show_below(v, new_s),
                        Some(SelectionV::Range(s, (new_s + 1) as usize, Direction::Down)),
                    ),
                    true,
                )
            },
            Some(SelectionV::Range(start, end, Direction::Up)) => {
                let new_s = min(start + inc, last);
                let sel = if new_s >= end {
                    SelectionV::Range((end - 1) as usize, (new_s + 1) as usize, Direction::Down)
                } else if new_s >= end - 1 {
                    SelectionV::Single(new_s as usize)
                } else {
                    SelectionV::Range(new_s as usize, end, Direction::Up)
                };
                (with_selected(show_below(v, new_s), Some(sel)), true)
            },
            Some(SelectionV::Range(start, end, Direction::Down)) => if end + 1 > v.height {
                (v, false)
            } else {
                let new_end = min(end + inc, v.height as int);
                let w = if sat_sub(new_end, v.top as int) >= v.size {
                    scroll_down_post(v, sat_sub(new_end, v.top as int) - v.size).0
                } else {
                    v
                };
                (
                    with_selected(
                        w,
                        Some(SelectionV::Range(start, new_end as usize, Direction::Down)),
                    ),
                    true,
                )
            },
            Some(SelectionV::Multi(_, _)) => (v, false),
        }
    }
}

/// `select_up(inc)`: grows the selection upwards by `inc` (shrinking a downward range
/// first), keeping its start visible.
pub open spec fn select_up_post(v: CursorV, inc: int) -> (CursorV, bool) {
    if v.height == 0 || v.size == 0 {
        (v, false)
    } else {
        match v.selected {
            None => (with_selected(v, Some(SelectionV::Single(v.top))), true),
            Some(SelectionV::Single(s)) => if s == 0 {
                (v, false)
            } else {
                let start = sat_sub(s as int, inc);
                let w = if start < v.top {
                    scroll_up_post(v, inc).0
                } else {
                    v
                };
                (
                    with_selected(
                        w,
                        Some(SelectionV::Range(start as usize, (s + 1) as usize, Direction::Up)),
                    ),
                    true,
                )
            },
            Some(SelectionV::Range(start, end, Direction::Up)) => if start == 0 {
                (v, false)
            } else {
                let new_start = sat_sub(start as int, inc);
                let w = if new_start < v.top {
                    with_top(v, new_start)
                } else {
                    v
                };
                (
                    with_selected(
                        w,
                        Some(SelectionV::Range(new_start as usize, end, Direction::Up)),
                    ),
                    true,
                )
            },
            Some(SelectionV::Range(start, end, Direction::Down)) => {
                let new_end = sat_sub(end as int, inc);
                let w = if sat_sub(new_end, v.top as int) > v.size {
                    scroll_up_post(v, inc + 1).0
                } else if new_end <= v.top {
                    with_top(v, sat_sub(new_end, 1))
                } else {
                    v
                };
                let sel = if new_end < start {
                    SelectionV::Range(
                        sat_sub(new_end, 1) as usize,
                        (start + 1) as usize,
                        Direction::Up,
                    )
                } else if new_end <= start + 1 {
                    SelectionV::Single(start)
                } else {
                    SelectionV::Range(start, new_end as usize, Direction::Down)
                };
                (with_selected(w, Some(sel)), true)
            },
            Some(SelectionV::Multi(_, _)) => (v, false),
        }
    }
}

/// The sums `select_down(inc)` computes fit in a `usize`.
pub open spec fn select_down_fits(v: CursorV, inc: int) -> bool {
    match v.selected {
        Some(SelectionV::Single(s)) => s + inc <= usize::MAX,
        Some(SelectionV::Range(start, _, Direction::Up)) => start + inc <= usize::MAX,
        Some(SelectionV::Range(_, end, Direction::Down)) => end + inc <= usize::MAX,
        _ => true,
    }
}

/// Moves the window to the range start or set minimum `start`, which becomes the single
/// selection.
pub open spec fn page_up_to(v: CursorV, start: int) -> (CursorV, bool) {
    let w = with_selected(v, Some(SelectionV::Single(start as usize)));
    if start < v.top {
        (with_top(w, start), true)
    } else if sat_sub(start, v.top as int) >= v.size {
        (scroll_up_post(w, sat_sub(start, v.top as int) - v.size + 1).0, true)
    } else {
        (w, true)
    }
}

/// The least element of a set of indices.
pub open spec fn set_min(t: Set<usize>) -> usize {
    choose|x: usize| t.contains(x) && forall|y: usize| t.contains(y) ==> x <= y
}

/// The greatest element of a set of indices.
pub open spec fn set_max(t: Set<usize>) -> usize {
    choose|x: usize| t.contains(x) && forall|y: usize| t.contains(y) ==> y <= x
}

/// `page_up()`: moves the window up by its size; a single selection moves up by as much,
/// and a range or set collapses to its first index.
pub open spec fn page_up_post(v: CursorV) -> (CursorV, bool) {
    if v.height == 0 || v.size == 0 {
        (v, false)
    } else {
        match v.selected {
            Some(SelectionV::Single(s)) => {
                let s2 = sat_sub(s as int, v.size as int);
                let m = scroll_up_post(
                    with_selected(v, Some(SelectionV::Single(s2 as usize))),
                    v.size as int,
                );
                (m.0, s2 == s || m.1)
            },
            None => scroll_up_post(v, v.size as int),
            Some(SelectionV::Range(start, _, _)) => page_up_to(v, start as int),
            Some(SelectionV::Multi(t, _)) => page_up_to(v, set_min(t) as int),
        }
    }
}

/// Moves the window to the range end or set maximum `end`, which becomes the single
/// selection.
pub open spec fn page_down_to(v: CursorV, end: int) -> (CursorV, bool) {
    let w = with_selected(v, Some(SelectionV::Single(end as usize)));
    if end < v.top {
        (with_top(w, end), true)
    } else if sat_sub(end, v.top as int) >= v.size {
        (scroll_down_post(w, sat_sub(end, v.top as int) - v.size + 1).0, true)
    } else {
        (w, true)
    }
}

/// `page_down()`: moves the window down by its size; a single selection moves down by as
/// much (at most to the last item), and a range or set collapses to its last index.
pub open spec fn page_down_post(v: CursorV) -> (CursorV, bool) {
    if v.height == 0 || v.size == 0 {
        (v, false)
    } else {
        match v.selected {
            Some(SelectionV::Single(s)) => {
                let s2 = min(s + v.size, sat_sub(v.height as int, 1));
                let m = scroll_down_post(
                    with_selected(v, Some(SelectionV::Single(s2 as usize))),
                    v.size as int,
                );
                (m.0, s2 == s || m.1)
            },
            None => scroll_down_post(v, v.size as int),
            Some(SelectionV::Range(_, end, _)) => page_down_to(v, sat_sub(end as int, 1)),
            Some(SelectionV::Multi(t, _)) => page_down_to(v, set_max(t) as int),
        }
    }
}

/// The sums `page_down()` computes fit in a `usize`.
pub open spec fn page_down_fits(v: CursorV) -> bool {
    match v.selected {
        Some(SelectionV::Single(s)) => s + v.size <= usize::MAX && v.top + 2 * v.size
            <= usize::MAX,
        None => v.top + 2 * v.size <= usize::MAX,
        _ => true,
    }
}

/// `end()`: moves the window to the end; a single selection moves to the last item and a
/// range collapses to its last index.
pub open spec fn end_post(v: CursorV) -> (CursorV, bool) {
    let m = scroll_down_post(v, v.height as int);
    match v.selected {
        Some(SelectionV::Single(s)) => {
            let s2 = sat_sub(v.height as int, 1);
            (with_selected(m.0, Some(SelectionV::Single(s2 as usize))), m.1 || s != s2)
        },
        Some(SelectionV::Range(_, end, _)) => {
            let c = collapse_to_end(m.0, end as int);
            (c.0, m.1 || c.1)
        },
        _ => m,
    }
}

/// `home()`: moves the window to the start, and a selection to its first place.
pub open spec fn home_post(v: CursorV) -> (CursorV, bool) {
    let w = with_top(v, 0);
    if v.selected is Some {
        let m = select_relative_post(w, 0);
        (m.0, v.top != 0 || m.1)
    } else {
        (w, v.top != 0)
    }
}

/// `refresh_height(h)`: the items are now `h`; the window moves up where it would reach
/// past them, and a single selection past them is cleared, as is any selection when there
/// are none.
pub open spec fn refresh_height_post(v: CursorV, h: int) -> CursorV {
    let top = if v.top + v.size > h {
        sat_sub(h, v.size as int)
    } else {
        v.top as int
    };
    let sel = match v.selected {
        Some(SelectionV::Single(i)) => if i >= h {
            None
        } else {
            v.selected
        },
        _ => v.selected,
    };
    CursorV {
        top: top as usize,
        height: h as usize,
        window_height: h as usize,
        selected: if h == 0 {
            None
        } else {
            sel
        },
        ..v
    }
}

/// `refresh_window_size(s)`: the window now has `s` places, and moves up where it would
/// reach past the items; whether the size changed.
pub open spec fn refresh_size_post(v: CursorV, s: int) -> (CursorV, bool) {
    if s == v.size {
        (v, false)
    } else {
        let top = if v.top + s > v.window_height {
            sat_sub(v.window_height as int, s)
        } else {
            v.top as int
        };
        (CursorV { size: s as usize, top: top as usize, ..v }, true)
    }
}

// ---------------------------------------------------------------------------
// The window
// ---------------------------------------------------------------------------

/// A window of `size` places starting at `top_index` over `height` items.
#[derive(Clone, Debug, PartialEq, Eq)]
struct Window {
    top_index: usize,
    size: usize,
    height: usize,
}

impl Window {
    fn at_end(&self) -> (r: bool)
        ensures
            r == (self.size >= self.height || self.top_index + self.size >= self.height),
    {
        self.size >= self.height || self.top_index >= self.height - self.size
    }

    fn at_top(&self) -> (r: bool)
        ensures
            r == (self.top_index == 0),
    {
        self.top_index == 0
    }

    fn scroll_down(&mut self, inc: usize) -> (r: bool)
        requires
            old(self).top_index + inc + old(self).size <= usize::MAX,
        ensures
            final(self).size == old(self).size,
            final(self).height == old(self).height,
            (if old(self).top_index + inc + old(self).size > old(self).height {
                &&& final(self).top_index == sat_sub(old(self).height as int, old(self).size as int)
                &&& r == (final(self).top_index != old(self).top_index)
            } else {
                &&& final(self).top_index == old(self).top_index + inc
                &&& r
            }),
    {
        if self.top_index + inc + self.size > self.height {
            let new_val = if self.height >= self.size {
                self.height - self.size
            } else {
                0
            };
            let changed = new_val != self.top_index;
            self.top_index = new_val;
            changed
        } else {
            self.top_index = self.top_index + inc;
            true
        }
    }

    fn scroll_up(&mut self, inc: usize) -> (r: bool)
        ensures
            final(self).size == old(self).size,
            final(self).height == old(self).height,
            final(self).top_index == sat_sub(old(self).top_index as int, inc as int),
            r == (final(self).top_index != old(self).top_index),
    {
        let new_val = if self.top_index >= inc {
            self.top_index - inc
        } else {
            0
        };
        let changed = new_val != self.top_index;
        self.top_index = new_val;
        changed
    }

    fn refresh_height(&mut self, height: usize)
        requires
            old(self).top_index + old(self).size <= usize::MAX,
        ensures
            final(self).size == old(self).size,
            final(self).height == height,
            final(self).top_index == (if old(self).top_index + old(self).size > height {
                sat_sub(height as int, old(self).size as int)
            } else {
                old(self).top_index as int
            }),
    {
        self.height = height;
        if self.top_index + self.size > self.height {
            self.top_index = if self.height >= self.size {
                self.height - self.size
            } else {
                0
            };
        }
    }

    fn refresh_size(&mut self, size: usize) -> (r: bool)
        requires
            old(self).top_index + size <= usize::MAX,
        ensures
            final(self).height == old(self).height,
            final(self).size == size,
            r == (size != old(self).size),
            final(self).top_index == (if size != old(self).size && old(self).top_index + size
                > old(self).height {
                sat_sub(old(self).height as int, size as int)
            } else {
                old(self).top_index as int
            }),
    {
        if self.size == size {
            return false;
        }
        self.size = size;
        if self.top_index + self.size > self.height {
            self.top_index = if self.height >= self.size {
                self.height - self.size
            } else {
                0
            };
        }
        true
    }

    fn range(&self) -> (r: std::ops::Range<usize>)
        requires
            self.top_index + self.size <= usize::MAX,
        ensures
            r.start == self.top_index,
            r.end == min(self.top_index + self.size, self.height as int),
    {
        let end = if self.top_index + self.size <= self.height {
            self.top_index + self.size
        } else {
            self.height
        };
        self.top_index..end
    }
}

/// The least element of `t`, or `None` for an empty set (std's `BTreeSet::first`, whose
/// documentation states that the first element is the minimum).
#[verifier::external_body]
pub(crate) fn first_of(t: &BTreeSet<usize>) -> (r: Option<usize>)
    ensures
        match r {
            Some(x) => t@.contains(x) && forall|y: usize| t@.contains(y) ==> x <= y,
            None => forall|y: usize| !t@.contains(y),
        },
{
    match t.first() {
        Some(x) => Some(*x),
        None => None,
    }
}

/// The greatest element of `t`, or `None` for an empty set (std's `BTreeSet::last`, whose
/// documentation states that the last element is the maximum).
#[verifier::external_body]
pub(crate) fn last_of(t: &BTreeSet<usize>) -> (r: Option<usize>)
    ensures
        match r {
            Some(x) => t@.contains(x) && forall|y: usize| t@.contains(y) ==> y <= x,
            None => forall|y: usize| !t@.contains(y),
        },
{
    match t.last() {
        Some(x) => Some(*x),
        None => None,
    }
}

proof fn lemma_set_min(t: Set<usize>, x: usize)
    requires
        t.contains(x),
        forall|y: usize| t.contains(y) ==> x <= y,
    ensures
        set_min(t) == x,
{
    let m = set_min(t);
    assert(t.contains(m) && forall|y: usize| t.contains(y) ==> m <= y);
}

proof fn lemma_set_max(t: Set<usize>, x: usize)
    requires
        t.contains(x),
        forall|y: usize| t.contains(y) ==> y <= x,
    ensures
        set_max(t) == x,
{
    let m = set_max(t);
    assert(t.contains(m) && forall|y: usize| t.contains(y) ==> y <= m);
}

// ---------------------------------------------------------------------------
// The cursor
// ---------------------------------------------------------------------------

/// A window over a list of items, with a selection.
pub struct PageCursorMultiple {
    window: Window,
    selected: Option<Selection>,
    height: usize,
}

impl View for PageCursorMultiple {
    type V = CursorV;

    closed spec fn view(&self) -> CursorV {
        CursorV {
            top: self.window.top_index,
            size: self.window.size,
            height: self.height,
            window_height: self.window.height,
            selected: selection_view(self.selected),
        }
    }
}

impl PageCursorMultiple {
    /// A cursor over `height` items with a window of `window_size` places, at the start,
    /// with nothing selected.
    pub fn new(height: usize, window_size: usize) -> (r: PageCursorMultiple)
        ensures
            r@ == (CursorV {
                top: 0,
                size: window_size,
                height,
                window_height: height,
                selected: None,
            }),
            cursor_wf(r@),
    {
        PageCursorMultiple {
            window: Window { top_index: 0, size: window_size, height },
            height,
            selected: None,
        }
    }

    /// The index of the first item in the window.
    pub fn top_index(&self) -> (r: usize)
        requires
            cursor_wf(self@),
        ensures
            r == self@.top,
    {
        self.window.top_index
    }

    /// Whether the window is at the end of the items.
    pub fn at_end(&self) -> (r: bool)
        requires
            cursor_wf(self@),
        ensures
            r == at_end_spec(self@),
    {
        self.window.at_end()
    }

    /// Moves the window down by `inc`, but not past the end of the items where it can be
    /// avoided. Returns whether the window reports a change.
    pub fn scroll_down(&mut self, inc: usize) -> (r: bool)
        requires
            cursor_wf(old(self)@),
            old(self)@.top + inc + old(self)@.size <= usize::MAX,
        ensures
            (final(self)@, r) == scroll_down_post(old(self)@, inc as int),
    {
        self.window.scroll_down(inc)
    }

    /// Moves the window up by `inc`, but not before the first item. Returns whether it moved.
    pub fn scroll_up(&mut self, inc: usize) -> (r: bool)
        requires
            cursor_wf(old(self)@),
        ensures
            (final(self)@, r) == scroll_up_post(old(self)@, inc as int),
    {
        self.window.scroll_up(inc)
    }

    /// Clears the selection. Returns whether there was one.
    pub fn deselect(&mut self) -> (r: bool)
        requires
            cursor_wf(old(self)@),
        ensures
            final(self)@ == with_selected(old(self)@, None),
            r == old(self)@.selected is Some,
    {
        let had = self.selected.is_some();
        self.selected = None;
        had
    }

    /// Selects the item `index` places into the window, or the last place of the window
    /// where `index` lies beyond it, and at most the last item. Returns whether the
    /// selection changed.
    pub fn select_relative(&mut self, index: usize) -> (r: bool)
        requires
            cursor_wf(old(self)@),
            single_or_none(old(self)@.selected),
        ensures
            (final(self)@, r) == select_relative_post(old(self)@, index as int),
    {
        let off = if index > self.window.size {
            if self.window.size >= 1 {
                self.window.size - 1
            } else {
                0
            }
        } else {
            index
        };
        let i0 = off + self.window.top_index;
        let ind = if i0 > self.height {
            if self.height >= 1 {
                self.height - 1
            } else {
                0
            }
        } else {
            i0
        };
        let changed = match &self.selected {
            Some(Selection::Single(o)) => *o != ind,
            _ => true,
        };
        self.selected = Some(Selection::Single(ind));
        changed
    }

    /// Selects `index`; where it lies in the first window or the last, moves the window
    /// there. With no items, clears the selection.
    pub fn select_index_and_make_visible(&mut self, index: usize) -> (r: bool)
        requires
            cursor_wf(old(self)@),
            old(self)@.height == 0 || index < old(self)@.height,
            old(self)@.height == 0 || index < old(self)@.size || index + old(self)@.size
                <= usize::MAX,
        ensures
            final(self)@ == select_visible_post(old(self)@, index as int),
            r,
    {
        if self.height == 0 {
            self.selected = None;
            return true;
        }
        if index < self.window.size {
            self.selected = Some(Selection::Single(index));
            self.window.top_index = 0;
        } else if index + self.window.size > self.height {
            self.selected = Some(Selection::Single(index));
            self.window.top_index = self.height - self.window.size;
        } else if index < self.window.top_index {
            self.selected = Some(Selection::Single(index));
            self.window.top_index = index;
        } else if index - self.window.top_index >= self.window.size && self.window.size > 0 {
            self.selected = Some(Selection::Single(index));
            self.window.top_index = index + 1 - self.window.size;
        } else {
            self.selected = Some(Selection::Single(index));
        }
        true
    }

    /// Selects `index`, or clears the selection when there are no items.
    pub fn select_index(&mut self, index: usize)
        requires
            cursor_wf(old(self)@),
            old(self)@.height == 0 || index < old(self)@.height,
        ensures
            final(self)@ == select_index_post(old(self)@, index as int),
    {
        if self.height == 0 {
            self.selected = None;
        } else {
            self.selected = Some(Selection::Single(index));
        }
    }

    fn collapse_to_end(&mut self, end: usize) -> (r: bool)
        requires
            1 <= end,
        ensures
            (final(self)@, r) == collapse_to_end(old(self)@, end as int),
    {
        let ind = end - 1;
        self.selected = Some(Selection::Single(ind));
        if ind < self.window.top_index {
            self.window.top_index = ind;
            true
        } else if ind - self.window.top_index >= self.window.size {
            let k = ind - self.window.top_index - self.window.size + 1;
            self.window.scroll_down(k)
        } else {
            true
        }
    }

    /// Selects the first item in the window when nothing is selected, moves a single
    /// selection down by one (moving the window to keep it visible), and collapses a range
    /// to its last index. Returns whether anything changed.
    pub fn down(&mut self) -> (r: bool)
        requires
            cursor_wf(old(self)@),
            not_multi(old(self)@.selected),
        ensures
            (final(self)@, r) == down_post(old(self)@),
    {
        if self.height == 0 || self.window.size == 0 {
            return false;
        }
        match &self.selected {
            None => {
                self.selected = Some(Selection::Single(self.window.top_index));
                true
            },
            Some(Selection::Single(s)) => {
                let s = *s;
                if s + 1 >= self.height {
                    return false;
                }
                if s + 1 - (if s + 1 >= self.window.top_index {
                    self.window.top_index
                } else {
                    s + 1
                }) >= self.window.size {
                    self.window.scroll_down(1);
                }
                self.selected = Some(Selection::Single(s + 1));
                true
            },
            Some(Selection::Range(_, end, _)) => {
                let end = *end;
                self.collapse_to_end(end)
            },
            Some(Selection::Multi(_, _)) => false,
        }
    }

    /// Selects the first item in the window when nothing is selected, moves a single
    /// selection up by one (moving the window to keep it visible), and collapses a range to
    /// its first index. Returns whether anything changed.
    pub fn up(&mut self) -> (r: bool)
        requires
            cursor_wf(old(self)@),
            not_multi(old(self)@.selected),
        ensures
            (final(self)@, r) == up_post(old(self)@),
    {
        if self.height == 0 || self.window.size == 0 {
            return false;
        }
        match &self.selected {
            None => {
                self.selected = Some(Selection::Single(self.window.top_index));
                true
            },
            Some(Selection::Single(s)) => {
                let s = *s;
                if s == 0 {
                    false
                } else if s > self.window.top_index {
                    self.selected = Some(Selection::Single(s - 1));
                    true
                } else if self.window.top_index > 0 {
                    self.selected = Some(Selection::Single(s - 1));
                    self.window.top_index = self.window.top_index - 1;
                    true
                } else {
                    false
                }
            },
            Some(Selection::Range(start, _, _)) => {
                let start = *start;
                self.selected = Some(Selection::Single(start));
                if start < self.window.top_index {
                    self.window.top_index = start;
                }
                true
            },
            Some(Selection::Multi(_, _)) => false,
        }
    }

    fn show_below(&mut self, ind: usize)
        requires
            cursor_wf(old(self)@),
            ind < old(self)@.height,
        ensures
            final(self)@ == show_below(old(self)@, ind as int),
    {
        let off = if ind >= self.window.top_index {
            ind - self.window.top_index
        } else {
            0
        };
        if off >= self.window.size {
            self.window.scroll_down(off - self.window.size + 1);
        }
    }

    /// Grows the selection down by `inc` items (first shrinking a range grown upwards),
    /// moving the window to keep its end visible. Returns whether it changed.
    pub fn select_down(&mut self, inc: usize) -> (r: bool)
        requires
            cursor_wf(old(self)@),
            not_multi(old(self)@.selected),
            select_down_fits(old(self)@, inc as int),
        ensures
            (final(self)@, r) == select_down_post(old(self)@, inc as int),
    {
        if self.height == 0 || self.window.size == 0 {
            return false;
        }
        let last = self.height - 1;
        match &self.selected {
            None => {
                self.selected = Some(Selection::Single(self.window.top_index));
                true
            },
            Some(Selection::Single(s)) => {
                let s = *s;
                if s + 1 >= self.height {
                    return false;
                }
                let new_s = if s + inc <= last {
                    s + inc
                } else {
                    last
                };
                self.show_below(new_s);
                self.selected = Some(Selection::Range(s, new_s + 1, Direction::Down));
                true
            },
            Some(Selection::Range(start, end, Direction::Up)) => {
                let start = *start;
                let end = *end;
                let new_s = if start + inc <= last {
                    start + inc
                } else {
                    last
                };
                let sel = if new_s >= end {
                    Selection::Range(end - 1, new_s + 1, Direction::Down)
                } else if new_s >= end - 1 {
                    Selection::Single(new_s)
                } else {
                    Selection::Range(new_s, end, Direction::Up)
                };
                self.selected = Some(sel);
                self.show_below(new_s);
                true
            },
            Some(Selection::Range(start, end, Direction::Down)) => {
                let start = *start;
                let end = *end;
                if end >= self.height {
                    return false;
                }
                let new_end = if end + inc <= self.height {
                    end + inc
                } else {
                    self.height
                };
                let off = if new_end >= self.window.top_index {
                    new_end - self.window.top_index
                } else {
                    0
                };
                if off >= self.window.size {
                    self.window.scroll_down(off - self.window.size);
                }
                self.selected = Some(Selection::Range(start, new_end, Direction::Down));
                true
            },
            Some(Selection::Multi(_, _)) => false,
        }
    }

    /// Grows the selection up by `inc` items (first shrinking a range grown downwards),
    /// moving the window to keep its start visible. Returns whether it changed.
    pub fn select_up(&mut self, inc: usize) -> (r: bool)
        requires
            cursor_wf(old(self)@),
            not_multi(old(self)@.selected),
        ensures
            (final(self)@, r) == select_up_post(old(self)@, inc as int),
    {
        if self.height == 0 || self.window.size == 0 {
            return false;
        }
        match &self.selected {
            None => {
                self.selected = Some(Selection::Single(self.window.top_index));
                true
            },
            Some(Selection::Single(s)) => {
                let s = *s;
                if s == 0 {
                    return false;
                }
                let start = if s >= inc {
                    s - inc
                } else {
                    0
                };
                if start < self.window.top_index {
                    self.window.scroll_up(inc);
                }
                self.selected = Some(Selection::Range(start, s + 1, Direction::Up));
                true
            },
            Some(Selection::Range(start, end, Direction::Up)) => {
                let start = *start;
                let end = *end;
                if start == 0 {
                    return false;
                }
                let new_start = if start >= inc {
                    start - inc
                } else {
                    0
                };
                if new_start < self.window.top_index {
                    self.window.top_index = new_start;
                }
                self.selected = Some(Selection::Range(new_start, end, Direction::Up));
                true
            },
            Some(Selection::Range(start, end, Direction::Down)) => {
                let start = *start;
                let end = *end;
                let new_end = if end >= inc {
                    end - inc
                } else {
                    0
                };
                let off = if new_end >= self.window.top_index {
                    new_end - self.window.top_index
                } else {
                    0
                };
                if off > self.window.size {
                    self.window.scroll_up(inc + 1);
                } else if new_end <= self.window.top_index {
                    self.window.top_index = if new_end >= 1 {
                        new_end - 1
                    } else {
                        0
                    };
                }
                let sel = if new_end < start {
                    Selection::Range(
                        if new_end >= 1 {
                            new_end - 1
                        } else {
                            0
                        },
                        start + 1,
                        Direction::Up,
                    )
                } else if new_end <= start + 1 {
                    Selection::Single(start)
                } else {
                    Selection::Range(start, new_end, Direction::Down)
                };
                self.selected = Some(sel);
                true
            },
            Some(Selection::Multi(_, _)) => false,
        }
    }

    fn page_up_to(&mut self, start: usize) -> (r: bool)
        requires
            start < usize::MAX,
        ensures
            (final(self)@, r) == page_up_to(old(self)@, start as int),
    {
        self.selected = Some(Selection::Single(start));
        if start < self.window.top_index {
            self.window.top_index = start;
        } else if start - self.window.top_index >= self.window.size {
            self.window.scroll_up(start - self.window.top_index - self.window.size + 1);
        }
        true
    }

    /// Moves the window up by its size. A single selection moves up by as much; a range or
    /// set of selected items collapses to its first index, which the window is moved to
    /// show. Returns whether anything changed.
    pub fn page_up(&mut self) -> (r: bool)
        requires
            cursor_wf(old(self)@),
        ensures
            (final(self)@, r) == page_up_post(old(self)@),
    {
        if self.height == 0 || self.window.size == 0 {
            return false;
        }
        let start = match &self.selected {
            Some(Selection::Single(s)) => {
                let s = *s;
                let s2 = if s >= self.window.size {
                    s - self.window.size
                } else {
                    0
                };
                self.selected = Some(Selection::Single(s2));
                let size = self.window.size;
                let scrolled = self.window.scroll_up(size);
                return s2 == s || scrolled;
            },
            None => {
                let size = self.window.size;
                return self.window.scroll_up(size);
            },
            Some(Selection::Range(start, _, _)) => *start,
            Some(Selection::Multi(t, _)) => {
                let m = first_of(t);
                proof {
                    let x = choose|x: usize| t@.contains(x);
                    assert(t@.contains(x));
                }
                let m = m.unwrap();
                proof {
                    lemma_set_min(t@, m);
                }
                m
            },
        };
        self.page_up_to(start)
    }

    fn page_down_to(&mut self, end: usize) -> (r: bool)
        requires
            end < usize::MAX,
        ensures
            (final(self)@, r) == page_down_to(old(self)@, end as int),
    {
        self.selected = Some(Selection::Single(end));
        if end < self.window.top_index {
            self.window.top_index = end;
        } else if end - self.window.top_index >= self.window.size {
            self.window.scroll_down(end - self.window.top_index - self.window.size + 1);
        }
        true
    }

    /// Moves the window down by its size. A single selection moves down by as much (at most
    /// to the last item); a range or set of selected items collapses to its last index,
    /// which the window is moved to show. Returns whether anything changed.
    pub fn page_down(&mut self) -> (r: bool)
        requires
            cursor_wf(old(self)@),
            page_down_fits(old(self)@),
        ensures
            (final(self)@, r) == page_down_post(old(self)@),
    {
        if self.height == 0 || self.window.size == 0 {
            return false;
        }
        let end = match &self.selected {
            Some(Selection::Single(s)) => {
                let s = *s;
                let last = self.height - 1;
                let s2 = if s + self.window.size <= last {
                    s + self.window.size
                } else {
                    last
                };
                self.selected = Some(Selection::Single(s2));
                let size = self.window.size;
                let scrolled = self.window.scroll_down(size);
                return s2 == s || scrolled;
            },
            None => {
                let size = self.window.size;
                return self.window.scroll_down(size);
            },
            Some(Selection::Range(_, end, _)) => *end - 1,
            Some(Selection::Multi(t, _)) => {
                let m = last_of(t);
                proof {
                    let x = choose|x: usize| t@.contains(x);
                    assert(t@.contains(x));
                }
                let m = m.unwrap();
                proof {
                    lemma_set_max(t@, m);
                }
                m
            },
        };
        self.page_down_to(end)
    }

    /// Moves the window to the end of the items. A single selection moves to the last item
    /// and a range collapses to its last index. Returns whether anything changed.
    pub fn end(&mut self) -> (r: bool)
        requires
            cursor_wf(old(self)@),
            not_multi(old(self)@.selected),
            old(self)@.top + old(self)@.height + old(self)@.size <= usize::MAX,
        ensures
            (final(self)@, r) == end_post(old(self)@),
    {
        let height = self.height;
        let t_change = self.window.scroll_down(height);
        match &self.selected {
            Some(Selection::Single(s)) => {
                let s = *s;
                let s2 = if self.height >= 1 {
                    self.height - 1
                } else {
                    0
                };
                self.selected = Some(Selection::Single(s2));
                t_change || s != s2
            },
            Some(Selection::Range(_, end, _)) => {
                let end = *end;
                let s_change = self.collapse_to_end(end);
                t_change || s_change
            },
            _ => t_change,
        }
    }

    /// Moves the window to the start of the items, and a selection to the first item.
    /// Returns whether anything changed.
    pub fn home(&mut self) -> (r: bool)
        requires
            cursor_wf(old(self)@),
            single_or_none(old(self)@.selected),
        ensures
            (final(self)@, r) == home_post(old(self)@),
    {
        let t_change = self.window.top_index != 0;
        self.window.top_index = 0;
        let s_change = if self.selected.is_some() {
            self.select_relative(0)
        } else {
            false
        };
        t_change || s_change
    }

    /// Sets the number of items, moving the window up where it would reach past them and
    /// clearing a single selection that lies past them (and any selection when there are
    /// none).
    pub fn refresh_height(&mut self, height: usize)
        requires
            cursor_wf(old(self)@),
            not_multi(old(self)@.selected),
        ensures
            final(self)@ == refresh_height_post(old(self)@, height as int),
    {
        self.height = height;
        self.window.refresh_height(height);
        let clear = match &self.selected {
            Some(Selection::Single(ind)) => *ind >= self.height,
            _ => false,
        };
        if clear || height == 0 {
            self.selected = None;
        }
    }

    /// Sets the number of places in the window, moving it up where it would reach past the
    /// items. Returns whether the size changed.
    pub fn refresh_window_size(&mut self, window_size: usize) -> (r: bool)
        requires
            cursor_wf(old(self)@),
            old(self)@.top + window_size <= usize::MAX,
        ensures
            (final(self)@, r) == refresh_size_post(old(self)@, window_size as int),
    {
        self.window.refresh_size(window_size)
    }

    /// Grows the selection up by a window's size.
    pub fn select_page_up(&mut self) -> (r: bool)
        requires
            cursor_wf(old(self)@),
            not_multi(old(self)@.selected),
        ensures
            (final(self)@, r) == select_up_post(old(self)@, old(self)@.size as int),
    {
        let size = self.window.size;
        self.select_up(size)
    }

    /// Grows the selection down by a window's size.
    pub fn select_page_down(&mut self) -> (r: bool)
        requires
            cursor_wf(old(self)@),
            not_multi(old(self)@.selected),
            select_down_fits(old(self)@, old(self)@.size as int),
        ensures
            (final(self)@, r) == select_down_post(old(self)@, old(self)@.size as int),
    {
        let size = self.window.size;
        self.select_down(size)
    }

    /// Grows the selection up to the first item.
    pub fn select_to_home(&mut self) -> (r: bool)
        requires
            cursor_wf(old(self)@),
            not_multi(old(self)@.selected),
        ensures
            (final(self)@, r) == select_up_post(old(self)@, old(self)@.height as int),
    {
        let height = self.height;
        self.select_up(height)
    }

    /// Grows the selection down to the last item.
    pub fn select_to_end(&mut self) -> (r: bool)
        requires
            cursor_wf(old(self)@),
            not_multi(old(self)@.selected),
            select_down_fits(old(self)@, old(self)@.height as int),
        ensures
            (final(self)@, r) == select_down_post(old(self)@, old(self)@.height as int),
    {
        let height = self.height;
        self.select_down(height)
    }

    /// The selection.
    pub fn selected(&self) -> (r: Option<&Selection>)
        ensures
            match r {
                Some(s) => self@.selected == Some(s@),
                None => self@.selected is None,
            },
    {
        match &self.selected {
            Some(s) => Some(s),
            None => None,
        }
    }

    /// The number of places in the window.
    pub fn window_size(&self) -> (r: usize)
        requires
            cursor_wf(self@),
        ensures
            r == self@.size,
    {
        self.window.size
    }

    /// The indices of the items in the window.
    pub fn window_range(&self) -> (r: std::ops::Range<usize>)
        requires
            cursor_wf(self@),
        ensures
            r.start == self@.top,
            r.end == min(self@.top + self@.size, self@.window_height as int),
    {
        self.window.range()
    }
}

} // verus!

verus! {

// ---------------------------------------------------------------------------
// The invariant is kept
// ---------------------------------------------------------------------------

/// Scrolling up keeps the cursor's invariant.
pub proof fn lemma_scroll_up_keeps_wf(v: CursorV, inc: int)
    requires
        cursor_wf(v),
        inc >= 0,
    ensures
        cursor_wf(scroll_up_post(v, inc).0),
{
}

/// Scrolling down keeps the cursor's invariant when the window has a place (or there are no
/// items).
pub proof fn lemma_scroll_down_keeps_wf(v: CursorV, inc: int)
    requires
        cursor_wf(v),
        inc >= 0,
        v.top + inc + v.size <= usize::MAX,
        v.size > 0 || v.height == 0,
    ensures
        cursor_wf(scroll_down_post(v, inc).0),
{
}

/// Selecting relative to the window keeps the cursor's invariant when the index it selects
/// lies within the items.
pub proof fn lemma_select_relative_keeps_wf(v: CursorV, index: int)
    requires
        cursor_wf(v),
        single_or_none(v.selected),
        index >= 0,
        relative_target(v, index) < v.height,
    ensures
        cursor_wf(select_relative_post(v, index).0),
{
}

/// Selecting an existing index keeps the cursor's invariant.
pub proof fn lemma_select_index_keeps_wf(v: CursorV, index: int)
    requires
        cursor_wf(v),
        0 <= index,
        v.height == 0 || index < v.height,
    ensures
        cursor_wf(select_index_post(v, index)),
        cursor_wf(select_visible_post(v, index)),
{
}

/// Moving the selection down or up keeps the cursor's invariant.
pub proof fn lemma_down_up_keep_wf(v: CursorV)
    requires
        cursor_wf(v),
        not_multi(v.selected),
    ensures
        cursor_wf(down_post(v).0),
        cursor_wf(up_post(v).0),
{
}

/// Growing the selection down or up keeps the cursor's invariant.
pub proof fn lemma_select_down_up_keep_wf(v: CursorV, inc: int)
    requires
        cursor_wf(v),
        not_multi(v.selected),
        inc >= 0,
        select_down_fits(v, inc),
    ensures
        cursor_wf(select_down_post(v, inc).0),
        cursor_wf(select_up_post(v, inc).0),
{
}

/// Paging up or down keeps the cursor's invariant.
pub proof fn lemma_page_keeps_wf(v: CursorV)
    requires
        cursor_wf(v),
        page_down_fits(v),
    ensures
        cursor_wf(page_up_post(v).0),
        cursor_wf(page_down_post(v).0),
{
    match v.selected {
        Some(SelectionV::Multi(t, _)) => {
            let x = choose|x: usize| t.contains(x);
            assert(t.contains(x));
            lemma_finite_min_exists(t, x);
            lemma_bounded_max_exists(t, x, v.height as int);
            let lo = set_min(t);
            let hi = set_max(t);
            assert(t.contains(lo) && t.contains(hi));
        },
        _ => {},
    }
}

/// A set of indices with an element has a least element.
proof fn lemma_finite_min_exists(t: Set<usize>, x: usize)
    requires
        t.contains(x),
    ensures
        exists|m: usize| t.contains(m) && forall|y: usize| t.contains(y) ==> m <= y,
    decreases x,
{
    if exists|y: usize| t.contains(y) && y < x {
        let y = choose|y: usize| t.contains(y) && y < x;
        lemma_finite_min_exists(t, y);
    } else {
        assert(forall|y: usize| t.contains(y) ==> x <= y);
    }
}

/// A set of indices below `h` with an element has a greatest element.
proof fn lemma_bounded_max_exists(t: Set<usize>, x: usize, h: int)
    requires
        t.contains(x),
        forall|y: usize| t.contains(y) ==> y < h,
    ensures
        exists|m: usize| t.contains(m) && forall|y: usize| t.contains(y) ==> y <= m,
    decreases h - x,
{
    if exists|y: usize| t.contains(y) && y > x {
        let y = choose|y: usize| t.contains(y) && y > x;
        lemma_bounded_max_exists(t, y, h);
    } else {
        assert(forall|y: usize| t.contains(y) ==> y <= x);
    }
}

/// Moving to the end keeps the cursor's invariant when the window has a place (or there
/// are no items); moving to the start keeps it always.
pub proof fn lemma_end_home_keep_wf(v: CursorV)
    requires
        cursor_wf(v),
        single_or_none(v.selected),
        v.top + v.height + v.size <= usize::MAX,
        v.size > 0 || v.height == 0,
    ensures
        cursor_wf(end_post(v).0),
        cursor_wf(home_post(v).0),
{
}

/// Changing the number of items keeps the cursor's invariant when the window has a place
/// (or there are no items left) and no selected range reaches past the new end.
pub proof fn lemma_refresh_height_keeps_wf(v: CursorV, h: int)
    requires
        cursor_wf(v),
        not_multi(v.selected),
        0 <= h <= usize::MAX,
        v.size > 0 || h == 0,
        v.selected matches Some(SelectionV::Range(_, e, _)) ==> e <= h,
    ensures
        cursor_wf(refresh_height_post(v, h)),
{
}

/// Changing the window's size keeps the cursor's invariant when the new window has a place
/// (or there are no items).
pub proof fn lemma_refresh_size_keeps_wf(v: CursorV, s: int)
    requires
        cursor_wf(v),
        0 <= s <= usize::MAX,
        v.top + s <= usize::MAX,
        s > 0 || v.height == 0,
    ensures
        cursor_wf(refresh_size_post(v, s).0),
{
}

/// Deselecting keeps the cursor's invariant.
pub proof fn lemma_deselect_keeps_wf(v: CursorV)
    requires
        cursor_wf(v),
    ensures
        cursor_wf(with_selected(v, None)),
{
}

} // verus!

verus! {

/// `at_end` holds exactly when the last item is in the window.
pub proof fn lemma_at_end_shows_last(v: CursorV)
    requires
        cursor_wf(v),
    ensures
        at_end_spec(v) <==> (v.height == 0 || v.top + v.size >= v.height),
{
}

/// While there are at least as many items as places, the window's range has as many
/// indices as the window has places.
pub proof fn lemma_window_full(v: CursorV)
    requires
        cursor_wf(v),
        v.size <= v.height,
    ensures
        min(v.top + v.size, v.window_height as int) - v.top == v.size,
{
}

} // verus!
