use vstd::prelude::*;

verus! {

/// A window of `window_size` places over a list of items, starting at `top`, with a
/// selection given as a place in the window.
pub ghost struct PageV<T> {
    pub top: int,
    pub window_size: int,
    pub selected: Option<int>,
    pub data: Seq<T>,
}

pub open spec fn min(a: int, b: int) -> int {
    if a <= b {
        a
    } else {
        b
    }
}

/// The view's invariant: a selection lies within the window, and the window starts at 0
/// unless it is full.
pub open spec fn view_wf<T>(v: PageV<T>) -> bool {
    &&& 0 <= v.top
    &&& 0 <= v.window_size
    &&& (v.selected matches Some(i) ==> 0 <= i < v.window_size)
    &&& (v.top + v.window_size > v.data.len() ==> v.top == 0)
}

pub open spec fn with_top<T>(v: PageV<T>, top: int) -> PageV<T> {
    PageV { top, ..v }
}

pub open spec fn with_sel<T>(v: PageV<T>, s: Option<int>) -> PageV<T> {
    PageV { selected: s, ..v }
}

/// A place in the window, limited to the last place that shows an item.
pub open spec fn clamp_place<T>(v: PageV<T>, index: Option<int>) -> Option<int> {
    match index {
        Some(i) => {
            let m = min(v.window_size, v.data.len() as int);
            if i >= m {
                if m > 0 {
                    Some(m - 1)
                } else {
                    None
                }
            } else {
                Some(i)
            }
        },
        None => None,
    }
}

/// `select(index)`: selects the place (limited to the last place that shows an item), and
/// whether the selection changed.
pub open spec fn select_post<T>(v: PageV<T>, index: Option<int>) -> (PageV<T>, bool) {
    let n = clamp_place(v, index);
    (with_sel(v, n), n != v.selected)
}

/// `scroll_down(inc)`: moves down, but not so far that the window would be partly empty.
pub open spec fn scroll_down_post<T>(v: PageV<T>, inc: int) -> (PageV<T>, bool) {
    if v.top + inc + v.window_size > v.data.len() {
        let t = if v.data.len() <= v.window_size {
            0
        } else {
            v.data.len() - v.window_size
        };
        (with_top(v, t), v.top != t)
    } else {
        (with_top(v, v.top + inc), true)
    }
}

/// `scroll_up(inc)`: moves up, stopping at the first item.
pub open spec fn scroll_up_post<T>(v: PageV<T>, inc: int) -> (PageV<T>, bool) {
    if v.top <= inc {
        (with_top(v, 0), v.top != 0)
    } else {
        (with_top(v, v.top - inc), true)
    }
}

/// Whether the window is at the end: the last item is in the window (it holds all items, or
/// it reaches the last item).
pub open spec fn view_at_end<T>(v: PageV<T>) -> bool {
    v.window_size >= v.data.len() || v.top + v.window_size >= v.data.len()
}

pub open spec fn select_down_post<T>(v: PageV<T>) -> (PageV<T>, bool) {
    match v.selected {
        Some(s) => if s < v.window_size - 1 && s < v.data.len() - 1 {
            select_post(v, Some(s + 1))
        } else {
            scroll_down_post(v, 1)
        },
        None => select_post(v, Some(v.window_size - 1)),
    }
}

pub open spec fn select_up_post<T>(v: PageV<T>) -> (PageV<T>, bool) {
    match v.selected {
        Some(s) => if s >= 1 {
            select_post(v, Some(s - 1))
        } else {
            scroll_up_post(v, 1)
        },
        None => select_post(v, Some(0)),
    }
}

pub open spec fn page_up_post<T>(v: PageV<T>) -> (PageV<T>, bool) {
    if v.selected is Some && v.top == 0 {
        if v.selected != Some(0int) {
            (with_sel(v, Some(0)), true)
        } else {
            (v, false)
        }
    } else {
        scroll_up_post(v, v.window_size)
    }
}

pub open spec fn page_down_post<T>(v: PageV<T>) -> (PageV<T>, bool) {
    if v.selected is Some && view_at_end(v) {
        if v.selected != Some(v.window_size - 1) {
            (with_sel(v, Some(v.window_size - 1)), true)
        } else {
            (v, false)
        }
    } else {
        scroll_down_post(v, v.window_size)
    }
}

pub open spec fn end_post<T>(v: PageV<T>) -> (PageV<T>, bool) {
    let m = scroll_down_post(v, v.data.len() as int);
    if v.selected is Some {
        let s = select_post(m.0, Some(v.window_size));
        (s.0, m.1 || v.selected != s.0.selected)
    } else {
        m
    }
}

pub open spec fn home_post<T>(v: PageV<T>) -> (PageV<T>, bool) {
    let w = with_top(v, 0);
    if v.selected is Some {
        let s = select_post(w, Some(0));
        (s.0, v.top != 0 || v.selected != s.0.selected)
    } else {
        (w, v.top != 0)
    }
}

/// `refresh()`: moves the window up where it would be partly empty.
pub open spec fn refresh_post<T>(v: PageV<T>) -> PageV<T> {
    if v.top + v.window_size > v.data.len() {
        with_top(
            v,
            if v.data.len() > v.window_size {
                v.data.len() - v.window_size
            } else {
                0
            },
        )
    } else {
        v
    }
}

/// `refresh_window_size(ws)`: keeps the selected item where it can, moving the window.
pub open spec fn resize_post<T>(v: PageV<T>, ws: int) -> PageV<T> {
    let w = PageV { window_size: ws, ..v };
    let moved = match v.selected {
        Some(ind) => if ws < v.window_size {
            if ind + 1 >= ws {
                select_post(
                    with_top(w, v.top + (ind + 1 - ws)),
                    if ws == 0 {
                        None
                    } else {
                        Some(ws - 1)
                    },
                ).0
            } else if ind >= v.data.len() {
                select_post(
                    w,
                    if v.data.len() > 0 {
                        Some(v.data.len() - 1)
                    } else {
                        None
                    },
                ).0
            } else {
                w
            }
        } else if v.top < ws - v.window_size {
            with_top(select_post(w, Some(ind + v.top)).0, 0)
        } else {
            let diff = ws - v.window_size;
            select_post(with_top(w, v.top - diff), Some(ind + diff)).0
        },
        None => w,
    };
    refresh_post(moved)
}

/// The sums `refresh_window_size(ws)` computes fit in a `usize`.
pub open spec fn resize_fits<T>(v: PageV<T>, ws: int) -> bool {
    &&& v.top + ws <= usize::MAX
    &&& (v.selected matches Some(ind) ==> ind + v.top + ws < usize::MAX)
}

/// A paged view over a list of items, with a selected place in its window.
pub struct PageView<T> {
    top_index: usize,
    window_size: usize,
    selected: Option<usize>,
    data: Vec<T>,
}

pub open spec fn opt_int(o: Option<usize>) -> Option<int> {
    match o {
        Some(x) => Some(x as int),
        None => None,
    }
}

impl<T> View for PageView<T> {
    type V = PageV<T>;

    closed spec fn view(&self) -> PageV<T> {
        PageV {
            top: self.top_index as int,
            window_size: self.window_size as int,
            selected: opt_int(self.selected),
            data: self.data@,
        }
    }
}

impl<T> PageView<T> {
    /// A view of `data` with a window of `window_size` places at its start, nothing
    /// selected.
    pub fn new(window_size: usize, data: Vec<T>) -> (r: PageView<T>)
        ensures
            r@ == (PageV { top: 0, window_size: window_size as int, selected: None, data: data@ }),
            view_wf(r@),
    {
        PageView { top_index: 0, window_size, selected: None, data }
    }

    /// Whether the window is at the end of the items.
    pub fn at_end(&self) -> (r: bool)
        ensures
            r == view_at_end(self@),
    {
        self.window_size >= self.data.len() || self.top_index >= self.data.len()
            - self.window_size
    }

    /// Whether the window starts at the first item.
    pub fn at_top(&self) -> (r: bool)
        ensures
            r == (self@.top == 0),
    {
        self.top_index == 0
    }

    /// Moves the window down by `inc`, but not so far that it would be partly empty.
    /// Returns whether it reports a change.
    pub fn scroll_down(&mut self, inc: usize) -> (r: bool)
        requires
            old(self)@.top + inc + old(self)@.window_size <= usize::MAX,
        ensures
            (final(self)@, r) == scroll_down_post(old(self)@, inc as int),
    {
        if self.top_index + inc + self.window_size > self.data.len() {
            let new_val = if self.data.len() <= self.window_size {
                0
            } else {
                self.data.len() - self.window_size
            };
            let c = self.top_index != new_val;
            self.top_index = new_val;
            c
        } else {
            self.top_index = self.top_index + inc;
            true
        }
    }

    /// Moves the window up by `inc`, stopping at the first item. Returns whether it reports
    /// a change.
    pub fn scroll_up(&mut self, inc: usize) -> (r: bool)
        ensures
            (final(self)@, r) == scroll_up_post(old(self)@, inc as int),
    {
        if self.top_index <= inc {
            let c = self.top_index != 0;
            self.top_index = 0;
            c
        } else {
            self.top_index = self.top_index - inc;
            true
        }
    }

    /// Selects the place `index` of the window, limited to the last place that shows an
    /// item, or clears the selection. Returns whether it changed.
    pub fn select(&mut self, index: Option<usize>) -> (r: bool)
        ensures
            (final(self)@, r) == select_post(old(self)@, opt_int(index)),
    {
        let ind = match index {
            Some(ind) => {
                let m = if self.window_size <= self.data.len() {
                    self.window_size
                } else {
                    self.data.len()
                };
                if ind >= m {
                    if m > 0 {
                        Some(m - 1)
                    } else {
                        None
                    }
                } else {
                    Some(ind)
                }
            },
            None => None,
        };
        let same = match (self.selected, ind) {
            (Some(a), Some(b)) => a == b,
            (None, None) => true,
            _ => false,
        };
        if same {
            false
        } else {
            self.selected = ind;
            true
        }
    }

    /// The selected place (0 for a window of no places).
    pub fn selected(&self) -> (r: Option<usize>)
        ensures
            r == match self@.selected {
                Some(i) => Some(
                    if self@.window_size == 0 {
                        0usize
                    } else {
                        i as usize
                    },
                ),
                None => None::<usize>,
            },
    {
        match self.selected {
            Some(ind) => if self.window_size == 0 {
                Some(0)
            } else {
                Some(ind)
            },
            None => None,
        }
    }

    /// The selected item, if a place is selected and it shows an item.
    pub fn selected_item(&self) -> (r: Option<&T>)
        requires
            self@.selected matches Some(i) ==> self@.top + i <= usize::MAX,
        ensures
            match self@.selected {
                Some(i) => if self@.top + i < self@.data.len() {
                    r == Some(&self@.data[self@.top + i])
                } else {
                    r is None
                },
                None => r is None,
            },
    {
        match self.selected {
            Some(ind) => {
                let i = self.top_index + ind;
                if i < self.data.len() {
                    Some(&self.data[i])
                } else {
                    None
                }
            },
            None => None,
        }
    }

    /// Moves the selection down a place, scrolling at the window's end; selects the last
    /// place when nothing is selected.
    pub fn select_down(&mut self) -> (r: bool)
        requires
            old(self)@.window_size > 0,
            old(self)@.selected matches Some(s) && s < old(self)@.window_size - 1 ==> old(
                self,
            )@.data.len() > 0,
            old(self)@.top + 1 + old(self)@.window_size <= usize::MAX,
        ensures
            (final(self)@, r) == select_down_post(old(self)@),
    {
        match self.selected {
            Some(s) => if s < self.window_size - 1 && s < self.data.len() - 1 {
                self.select(Some(s + 1))
            } else {
                self.scroll_down(1)
            },
            None => {
                let last = self.window_size - 1;
                self.select(Some(last))
            },
        }
    }

    /// Moves the selection up a place, scrolling at the window's start; selects the first
    /// place when nothing is selected.
    pub fn select_up(&mut self) -> (r: bool)
        ensures
            (final(self)@, r) == select_up_post(old(self)@),
    {
        match self.selected {
            Some(s) => if s >= 1 {
                self.select(Some(s - 1))
            } else {
                self.scroll_up(1)
            },
            None => self.select(Some(0)),
        }
    }

    /// Moves the window up by its size; at the start, moves the selection to the first
    /// place instead.
    pub fn page_up(&mut self) -> (r: bool)
        ensures
            (final(self)@, r) == page_up_post(old(self)@),
    {
        if self.selected.is_some() && self.at_top() {
            return match self.selected {
                Some(0) => false,
                _ => {
                    self.selected = Some(0);
                    true
                },
            };
        }
        let ws = self.window_size;
        self.scroll_up(ws)
    }

    /// Moves the window down by its size; at the end, moves the selection to the last place
    /// instead.
    pub fn page_down(&mut self) -> (r: bool)
        requires
            old(self)@.selected is Some && view_at_end(old(self)@) ==> old(self)@.window_size > 0,
            old(self)@.top + 2 * old(self)@.window_size <= usize::MAX,
        ensures
            (final(self)@, r) == page_down_post(old(self)@),
    {
        if self.selected.is_some() && self.at_end() {
            let last = self.window_size - 1;
            return match self.selected {
                Some(s) => if s == last {
                    false
                } else {
                    self.selected = Some(last);
                    true
                },
                None => false,
            };
        }
        let ws = self.window_size;
        self.scroll_down(ws)
    }

    /// Moves the window to the end; a selection moves to the last place.
    pub fn end(&mut self) -> (r: bool)
        requires
            old(self)@.top + old(self)@.data.len() + old(self)@.window_size <= usize::MAX,
        ensures
            (final(self)@, r) == end_post(old(self)@),
    {
        let len = self.data.len();
        let t_change = self.scroll_down(len);
        let s_change = if self.selected.is_some() {
            let old_selection = self.selected;
            let ws = self.window_size;
            self.select(Some(ws));
            match (old_selection, self.selected) {
                (Some(a), Some(b)) => a != b,
                (None, None) => false,
                _ => true,
            }
        } else {
            false
        };
        t_change || s_change
    }

    /// Moves the window to the start; a selection moves to the first place.
    pub fn home(&mut self) -> (r: bool)
        ensures
            (final(self)@, r) == home_post(old(self)@),
    {
        let t_change = if self.top_index == 0 {
            false
        } else {
            self.top_index = 0;
            true
        };
        let s_change = if self.selected.is_some() {
            let old_selection = self.selected;
            self.select(Some(0));
            match (old_selection, self.selected) {
                (Some(a), Some(b)) => a != b,
                (None, None) => false,
                _ => true,
            }
        } else {
            false
        };
        t_change || s_change
    }

    /// The items.
    pub fn data(&self) -> (r: &Vec<T>)
        ensures
            r@ == self@.data,
    {
        &self.data
    }

    /// The items, to change in place.
    pub fn data_mut(&mut self) -> (r: &mut Vec<T>)
        ensures
            r@ == old(self)@.data,
            final(self)@ == (PageV { data: final(r)@, ..old(self)@ }),
    {
        &mut self.data
    }

    /// Moves the window up where it would be partly empty.
    pub fn refresh(&mut self)
        requires
            old(self)@.top + old(self)@.window_size <= usize::MAX,
        ensures
            final(self)@ == refresh_post(old(self)@),
    {
        if self.top_index + self.window_size > self.data.len() {
            if self.data.len() > self.window_size {
                self.top_index = self.data.len() - self.window_size;
            } else {
                self.top_index = 0;
            }
        }
    }

    /// Replaces the items, moving the window up where it would be partly empty.
    pub fn refresh_data(&mut self, data: Vec<T>)
        requires
            old(self)@.top + old(self)@.window_size <= usize::MAX,
        ensures
            final(self)@ == refresh_post(PageV { data: data@, ..old(self)@ }),
    {
        self.data = data;
        self.refresh();
    }

    /// Sets the number of places in the window, keeping the selected item selected where it
    /// can by moving the window.
    pub fn refresh_window_size(&mut self, window_size: usize)
        requires
            resize_fits(old(self)@, window_size as int),
        ensures
            final(self)@ == resize_post(old(self)@, window_size as int),
    {
        let old_size = self.window_size;
        self.window_size = window_size;
        match self.selected {
            Some(ind) => {
                if window_size < old_size {
                    if ind + 1 >= window_size {
                        let diff = ind + 1 - window_size;
                        self.top_index = self.top_index + diff;
                        self.select(
                            if window_size == 0 {
                                None
                            } else {
                                Some(window_size - 1)
                            },
                        );
                    } else if ind >= self.data.len() {
                        if self.data.len() > 0 {
                            let last = self.data.len() - 1;
                            self.select(Some(last));
                        } else {
                            self.select(None);
                        }
                    }
                } else {
                    if self.top_index < window_size - old_size {
                        let t = self.top_index;
                        self.select(Some(ind + t));
                        self.top_index = 0;
                    } else {
                        let diff = window_size - old_size;
                        self.top_index = self.top_index - diff;
                        self.select(Some(ind + diff));
                    }
                }
            },
            None => {},
        }
        self.refresh();
    }

    /// The number of places in the window.
    pub fn window_size(&self) -> (r: usize)
        ensures
            r == self@.window_size,
    {
        self.window_size
    }

    /// The items in the window.
    pub fn window_slice(&self) -> (r: &[T])
        requires
            view_wf(self@),
            self@.top + self@.window_size <= usize::MAX,
        ensures
            r@ == self@.data.subrange(
                self@.top,
                min(self@.top + self@.window_size, self@.data.len() as int),
            ),
    {
        let end = if self.top_index + self.window_size <= self.data.len() {
            self.top_index + self.window_size
        } else {
            self.data.len()
        };
        vstd::slice::slice_subrange(self.data.as_slice(), self.top_index, end)
    }
}

// ---------------------------------------------------------------------------
// The invariant is kept
// ---------------------------------------------------------------------------

/// Selecting keeps the view's invariant.
pub proof fn lemma_select_keeps_wf<T>(v: PageV<T>, index: Option<int>)
    requires
        view_wf(v),
        index matches Some(i) ==> i >= 0,
    ensures
        view_wf(select_post(v, index).0),
{
}

/// Scrolling keeps the view's invariant.
pub proof fn lemma_scroll_keeps_wf<T>(v: PageV<T>, inc: int)
    requires
        view_wf(v),
        inc >= 0,
    ensures
        view_wf(scroll_down_post(v, inc).0),
        view_wf(scroll_up_post(v, inc).0),
{
}

/// Moving the selection or the page, or to either end, keeps the view's invariant: in
/// particular the selection never leaves the window.
pub proof fn lemma_moves_keep_wf<T>(v: PageV<T>)
    requires
        view_wf(v),
        v.window_size > 0,
    ensures
        view_wf(select_down_post(v).0),
        view_wf(select_up_post(v).0),
        view_wf(page_up_post(v).0),
        view_wf(page_down_post(v).0),
        view_wf(end_post(v).0),
        view_wf(home_post(v).0),
{
}

/// Changing the window's size or the items keeps the view's invariant.
pub proof fn lemma_refresh_keeps_wf<T>(v: PageV<T>, ws: int, data: Seq<T>)
    requires
        view_wf(v),
        0 <= ws,
    ensures
        view_wf(resize_post(v, ws)),
        view_wf(refresh_post(PageV { data, ..v })),
{
}

} // verus!
