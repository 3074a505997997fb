use vstd::prelude::*;

use std::collections::BTreeSet;

use crate::paged_cursor::first_of;

verus! {

broadcast use vstd::laws_cmp::group_laws_cmp;

/// The state of a list in which several items can be selected: the first item shown, the
/// item to bring into view, and the selected items.
#[derive(Clone, Debug)]
pub struct MultiSelectListState {
    offset: usize,
    target: Option<usize>,
    selected: BTreeSet<usize>,
}

pub ghost struct ListStateV {
    pub offset: usize,
    pub target: Option<usize>,
    pub selected: Set<usize>,
}

impl View for MultiSelectListState {
    type V = ListStateV;

    closed spec fn view(&self) -> ListStateV {
        ListStateV { offset: self.offset, target: self.target, selected: self.selected@ }
    }
}

impl Default for MultiSelectListState {
    fn default() -> (r: MultiSelectListState)
        ensures
            r@ == (ListStateV { offset: 0, target: None, selected: Set::empty() }),
    {
        MultiSelectListState { offset: 0, target: None, selected: BTreeSet::new() }
    }
}

impl MultiSelectListState {
    /// The selected items.
    pub fn selected(&self) -> (r: &BTreeSet<usize>)
        ensures
            r@ == self@.selected,
    {
        &self.selected
    }

    /// Adds `index` to the selection.
    pub fn select(&mut self, index: usize)
        ensures
            final(self)@ == (ListStateV { selected: old(self)@.selected.insert(index), ..old(self)@ }),
    {
        self.selected.insert(index);
    }

    /// The item to bring into view: the target where set, else the first selected item.
    pub fn front_selection(&mut self) -> (r: Option<usize>)
        ensures
            final(self)@ == old(self)@,
            match old(self)@.target {
                Some(t) => r == Some(t),
                None => match r {
                    Some(x) => old(self)@.selected.contains(x) && forall|y: usize|
                        old(self)@.selected.contains(y) ==> x <= y,
                    None => forall|y: usize| !old(self)@.selected.contains(y),
                },
            },
    {
        match self.target {
            None => first_of(&self.selected),
            Some(target) => Some(target),
        }
    }

    /// Removes `index` from the selection.
    pub fn deselect(&mut self, index: usize)
        ensures
            final(self)@ == (ListStateV { selected: old(self)@.selected.remove(index), ..old(self)@ }),
    {
        self.selected.remove(&index);
    }

    /// Clears the selection.
    pub fn deselect_all(&mut self)
        ensures
            final(self)@ == (ListStateV { selected: Set::empty(), ..old(self)@ }),
    {
        self.selected.clear();
    }
}

// ---------------------------------------------------------------------------
// The items shown
// ---------------------------------------------------------------------------

/// The total height of items `a .. b`.
pub open spec fn span(h: Seq<usize>, a: int, b: int) -> int
    decreases b - a,
{
    if b <= a {
        0
    } else {
        span(h, a, b - 1) + h[b - 1]
    }
}

/// Items from `a` on, as many as fit in `max` one after another: the end of the last
/// that fits, searching from `e`.
pub open spec fn fill_to(h: Seq<usize>, a: int, e: int, max: int) -> int
    decreases h.len() - e,
{
    if e < h.len() && span(h, a, e + 1) <= max {
        fill_to(h, a, e + 1, max)
    } else {
        e
    }
}

/// The first start from `s` on at which items up to `e` fit in `max`.
pub open spec fn trim_front(h: Seq<usize>, s: int, e: int, max: int) -> int
    decreases e - s,
{
    if s < e && span(h, s, e) > max {
        trim_front(h, s + 1, e, max)
    } else {
        s
    }
}

/// The last end up to `e` at which items from `s` fit in `max`.
pub open spec fn trim_back(h: Seq<usize>, s: int, e: int, max: int) -> int
    decreases e - s,
{
    if s < e && span(h, s, e) > max {
        trim_back(h, s, e - 1, max)
    } else {
        e
    }
}

/// The item to keep in view: the one given (at most the last), else the first.
pub open spec fn shown_index(h: Seq<usize>, selected: Option<usize>) -> int {
    match selected {
        Some(x) => if x < h.len() - 1 {
            x as int
        } else {
            h.len() - 1
        },
        None => 0,
    }
}

/// The items shown, `start .. end`: from the offset (at most the last item) as many as fit;
/// where the selected item (the first where none is given, at most the last) lies after
/// them, the items up to it, dropping from the front until they fit; where it lies
/// before them, the items from it, dropping from the back until they fit.
pub open spec fn items_bounds_spec(h: Seq<usize>, selected: Option<usize>, offset: int, max: int) -> (
    int,
    int,
) {
    let n = h.len() as int;
    let off = if offset < n - 1 {
        offset
    } else {
        n - 1
    };
    let sel = shown_index(h, selected);
    let e1 = fill_to(h, off, off, max);
    let (s2, e2) = if sel >= e1 {
        (trim_front(h, off, sel + 1, max), sel + 1)
    } else {
        (off, e1)
    };
    if sel < s2 {
        (sel, trim_back(h, sel, e2, max))
    } else {
        (s2, e2)
    }
}

proof fn lemma_span_split(h: Seq<usize>, a: int, b: int, c: int)
    requires
        a <= b <= c,
    ensures
        span(h, a, c) == span(h, a, b) + span(h, b, c),
        span(h, b, c) >= 0,
    decreases c - b,
{
    if b < c {
        lemma_span_split(h, a, b, c - 1);
    }
}

proof fn lemma_span_bounded(h: Seq<usize>, a: int, b: int)
    requires
        0 <= a <= b <= h.len(),
    ensures
        0 <= span(h, a, b) <= span(h, 0, h.len() as int),
{
    lemma_span_split(h, 0, a, b);
    lemma_span_split(h, 0, b, h.len() as int);
    lemma_span_split(h, 0, 0, a);
}

proof fn lemma_span_one(h: Seq<usize>, a: int)
    ensures
        span(h, a, a + 1) == h[a],
{
    assert(span(h, a, a) == 0);
}

proof fn lemma_fill_skip(h: Seq<usize>, a: int, e: int, max: int)
    requires
        a <= e <= h.len(),
        span(h, a, e) <= max,
    ensures
        a <= fill_to(h, a, e, max) <= h.len(),
        e <= fill_to(h, a, e, max),
        span(h, a, fill_to(h, a, e, max)) <= max,
    decreases h.len() - e,
{
    if e < h.len() && span(h, a, e + 1) <= max {
        lemma_fill_skip(h, a, e + 1, max);
    }
}

proof fn lemma_trim_front_skip(h: Seq<usize>, s: int, t: int, e: int, max: int)
    requires
        s <= t <= e,
        forall|k: int| s <= k < t ==> #[trigger] span(h, k, e) > max,
    ensures
        trim_front(h, s, e, max) == trim_front(h, t, e, max),
    decreases t - s,
{
    if s < t {
        lemma_trim_front_skip(h, s + 1, t, e, max);
    }
}

proof fn lemma_trim_back_skip(h: Seq<usize>, s: int, t: int, e: int, max: int)
    requires
        s <= t <= e,
        forall|k: int| t < k <= e ==> #[trigger] span(h, s, k) > max,
    ensures
        trim_back(h, s, e, max) == trim_back(h, s, t, max),
    decreases e - t,
{
    if t < e {
        lemma_trim_back_skip(h, s, t, e - 1, max);
    }
}

proof fn lemma_trim_front_range(h: Seq<usize>, s: int, e: int, max: int)
    requires
        s <= e,
        0 <= max,
    ensures
        s <= trim_front(h, s, e, max) <= e,
        span(h, trim_front(h, s, e, max), e) <= max,
    decreases e - s,
{
    if s < e && span(h, s, e) > max {
        lemma_trim_front_range(h, s + 1, e, max);
    }
}

proof fn lemma_trim_back_range(h: Seq<usize>, s: int, e: int, max: int)
    requires
        s <= e,
        0 <= max,
    ensures
        s <= trim_back(h, s, e, max) <= e,
        span(h, s, trim_back(h, s, e, max)) <= max,
    decreases e - s,
{
    if s < e && span(h, s, e) > max {
        lemma_trim_back_range(h, s, e - 1, max);
    }
}

/// The items to show in a list of items of heights `heights` in `max_height` rows: the
/// range `start .. end`.
pub fn get_items_bounds(heights: &Vec<usize>, selected: Option<usize>, offset: usize, max_height: usize) -> (r: (
    usize,
    usize,
))
    requires
        heights@.len() > 0,
        span(heights@, 0, heights@.len() as int) <= usize::MAX,
    ensures
        (r.0 as int, r.1 as int) == items_bounds_spec(heights@, selected, offset as int, max_height as int),
{
    let ghost h = heights@;
    let ghost max = max_height as int;
    let n = heights.len();
    let offset = if offset < n - 1 {
        offset
    } else {
        n - 1
    };
    let mut start = offset;
    let mut end = offset;
    let mut height: usize = 0;
    let mut fits = true;
    while fits && end < n
        invariant
            offset <= end <= n,
            n == h.len(),
            h == heights@,
            max == max_height,
            start == offset,
            height == span(h, offset as int, end as int),
            height <= max,
            fill_to(h, offset as int, offset as int, max) == fill_to(h, offset as int, end as int, max),
            !fits ==> end < n && span(h, offset as int, end + 1) > max,
            span(h, 0, h.len() as int) <= usize::MAX,
        decreases n - end + if fits {
            1int
        } else {
            0int
        },
    {
        proof {
            lemma_span_bounded(h, offset as int, end + 1);
        }
        if height + heights[end] > max_height {
            fits = false;
        } else {
            height = height + heights[end];
            end = end + 1;
        }
    }
    let sel = match selected {
        Some(x) => if x < n - 1 {
            x
        } else {
            n - 1
        },
        None => 0,
    };
    let ghost e1 = end as int;
    assert(fill_to(h, offset as int, offset as int, max) == e1);
    if sel >= end {
        while sel >= end
            invariant
                offset <= start <= end <= sel + 1,
                e1 <= end,
                e1 <= sel,
                sel < n,
                n == h.len(),
                h == heights@,
                max == max_height,
                height == span(h, start as int, end as int),
                height <= max,
                forall|k: int| offset <= k < start ==> #[trigger] span(h, k, end as int) > max,
                end > e1 ==> trim_front(h, offset as int, end as int, max) == start,
                end == e1 ==> start == offset,
                span(h, 0, h.len() as int) <= usize::MAX,
            decreases sel + 1 - end,
        {
            proof {
                lemma_span_bounded(h, start as int, end + 1);
                assert forall|k: int| offset <= k < start implies #[trigger] span(h, k, end + 1) > max by {
                    lemma_span_split(h, k, end as int, end + 1);
                }
            }
            height = height + heights[end];
            end = end + 1;
            while height > max_height
                invariant
                    offset <= start <= end <= sel + 1,
                    sel < n,
                    n == h.len(),
                    h == heights@,
                    max == max_height,
                    height == span(h, start as int, end as int),
                    forall|k: int| offset <= k < start ==> #[trigger] span(h, k, end as int) > max,
                decreases end - start,
            {
                proof {
                    lemma_span_split(h, start as int, start + 1, end as int);
                    lemma_span_one(h, start as int);
                    if start == end {
                        assert(span(h, start as int, end as int) == 0);
                    }
                }
                height = height - heights[start];
                start = start + 1;
            }
            proof {
                lemma_trim_front_skip(h, offset as int, start as int, end as int, max);
            }
        }
    }
    let ghost s2 = start as int;
    let ghost e2 = end as int;
    proof {
        if sel >= e1 {
            assert(e2 == sel + 1);
            assert(s2 == trim_front(h, offset as int, sel + 1, max));
        } else {
            assert(e2 == e1);
            assert(s2 == offset);
        }
    }
    while sel < start
        invariant
            sel < s2 ==> sel <= start,
            start <= s2,
            start <= end <= e2,
            e2 <= n,
            sel < n,
            n == h.len(),
            h == heights@,
            max == max_height,
            height == span(h, start as int, end as int),
            height <= max,
            forall|k: int| end < k <= e2 ==> #[trigger] span(h, start as int, k) > max,
            sel >= s2 ==> start == s2 && end == e2,
            span(h, 0, h.len() as int) <= usize::MAX,
        decreases start,
    {
        start = start - 1;
        proof {
            lemma_span_bounded(h, start as int, end as int);
            lemma_span_split(h, start as int, start + 1, end as int);
            lemma_span_split(h, start as int, start as int, start + 1);
            lemma_span_one(h, start as int);
            assert forall|k: int| end < k <= e2 implies #[trigger] span(h, start as int, k) > max by {
                lemma_span_split(h, start as int, start + 1, k);
            }
        }
        height = height + heights[start];
        while height > max_height
            invariant
                start <= end,
                end <= e2,
                e2 <= n,
                n == h.len(),
                h == heights@,
                max == max_height,
                height == span(h, start as int, end as int),
                forall|k: int| end < k <= e2 ==> #[trigger] span(h, start as int, k) > max,
            decreases end - start,
        {
            proof {
                if start == end {
                    assert(span(h, start as int, end as int) == 0);
                }
                lemma_span_split(h, start as int, start as int, end - 1);
            }
            end = end - 1;
            height = height - heights[end];
        }
    }
    proof {
        if sel < s2 {
            assert(start == sel);
            lemma_trim_back_skip(h, sel as int, end as int, e2, max);
        }
    }
    (start, end)
}

proof fn lemma_trim_front_at_most(h: Seq<usize>, s: int, t: int, e: int, max: int)
    requires
        s <= t <= e,
        span(h, t, e) <= max,
    ensures
        trim_front(h, s, e, max) <= t,
    decreases t - s,
{
    if s < t && span(h, s, e) > max {
        lemma_trim_front_at_most(h, s + 1, t, e, max);
    }
}

proof fn lemma_trim_back_at_least(h: Seq<usize>, s: int, t: int, e: int, max: int)
    requires
        s <= t <= e,
        span(h, s, t) <= max,
    ensures
        trim_back(h, s, e, max) >= t,
    decreases e - t,
{
    if t < e && span(h, s, e) > max {
        lemma_trim_back_at_least(h, s, t, e - 1, max);
    }
}

/// The items shown lie within the list and fit in the rows.
pub proof fn lemma_items_bounds_fit(h: Seq<usize>, selected: Option<usize>, offset: int, max: int)
    requires
        h.len() > 0,
        0 <= offset,
        0 <= max,
    ensures
        0 <= items_bounds_spec(h, selected, offset, max).0 <= items_bounds_spec(
            h,
            selected,
            offset,
            max,
        ).1 <= h.len(),
        span(
            h,
            items_bounds_spec(h, selected, offset, max).0,
            items_bounds_spec(h, selected, offset, max).1,
        ) <= max,
{
    let n = h.len() as int;
    let off = if offset < n - 1 {
        offset
    } else {
        n - 1
    };
    let sel = shown_index(h, selected);
    assert(span(h, off, off) == 0);
    lemma_fill_skip(h, off, off, max);
    let e1 = fill_to(h, off, off, max);
    if sel >= e1 {
        lemma_trim_front_range(h, off, sel + 1, max);
        let s2 = trim_front(h, off, sel + 1, max);
        if sel < s2 {
            lemma_trim_back_range(h, sel, sel + 1, max);
        }
    } else if sel < off {
        lemma_trim_back_range(h, sel, e1, max);
    }
}

/// The item kept in view is shown, where it fits in the rows at all.
pub proof fn lemma_items_bounds_show_selected(h: Seq<usize>, selected: Option<usize>, offset: int, max: int)
    requires
        h.len() > 0,
        0 <= offset,
        0 <= max,
        h[shown_index(h, selected)] <= max,
    ensures
        items_bounds_spec(h, selected, offset, max).0 <= shown_index(h, selected)
            < items_bounds_spec(h, selected, offset, max).1,
{
    let n = h.len() as int;
    let off = if offset < n - 1 {
        offset
    } else {
        n - 1
    };
    let sel = shown_index(h, selected);
    lemma_span_one(h, sel);
    assert(span(h, off, off) == 0);
    lemma_fill_skip(h, off, off, max);
    let e1 = fill_to(h, off, off, max);
    if sel >= e1 {
        lemma_trim_front_at_most(h, off, sel, sel + 1, max);
    } else if sel < off {
        lemma_trim_back_at_least(h, sel, sel + 1, e1, max);
    }
}

/// The item a list keeps in view: its target where set, else its smallest selected item.
pub open spec fn front_of(v: ListStateV) -> Option<usize> {
    match v.target {
        Some(t) => Some(t),
        None => if exists|x: usize| v.selected.contains(x) {
            Some(
                choose|x: usize|
                    v.selected.contains(x) && forall|y: usize| v.selected.contains(y) ==> x <= y,
            )
        } else {
            None
        },
    }
}

impl MultiSelectListState {
    /// Chooses the items to show, of heights `heights`, in `max_height` rows, keeping the
    /// front selection in view; the list then starts at the first of them.
    pub fn place_items(&mut self, heights: &Vec<usize>, max_height: usize) -> (r: (usize, usize))
        requires
            heights@.len() > 0,
            span(heights@, 0, heights@.len() as int) <= usize::MAX,
        ensures
            (r.0 as int, r.1 as int) == items_bounds_spec(
                heights@,
                front_of(old(self)@),
                old(self)@.offset as int,
                max_height as int,
            ),
            final(self)@ == (ListStateV { offset: r.0, ..old(self)@ }),
    {
        let front = self.front_selection();
        proof {
            let v = old(self)@;
            if v.target is None {
                match front {
                    Some(x) => {
                        let c = choose|x: usize|
                            v.selected.contains(x) && forall|y: usize| v.selected.contains(y) ==> x <= y;
                        assert(v.selected.contains(x));
                        assert(c <= x && x <= c);
                    },
                    None => {},
                }
            }
        }
        let r = get_items_bounds(heights, front, self.offset, max_height);
        self.offset = r.0;
        r
    }
}

} // verus!
