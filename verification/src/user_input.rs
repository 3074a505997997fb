use vstd::prelude::*;

use crate::text::{chars_of, string_from_chars};

verus! {

// ---------------------------------------------------------------------------
// Text with a cursor and a selection
// ---------------------------------------------------------------------------

/// The side of the cursor a selection extends to.
#[derive(Copy, Clone, Debug, PartialEq, Eq, Structural)]
pub enum Direction {
    Left,
    Right,
}

/// Text with a cursor and an optional selection. A selection of `x` characters to the
/// left of the cursor covers `cursor - x .. cursor`; with `Left` it covers
/// `cursor .. cursor + x` (the cursor sits at its left end).
pub ghost struct TextV {
    pub cursor: int,
    pub selection: Option<(int, Direction)>,
    pub text: Seq<char>,
}

/// The cursor lies within the text, and a selection is non-empty and lies within it.
pub open spec fn text_wf(t: TextV) -> bool {
    &&& 0 <= t.cursor <= t.text.len()
    &&& match t.selection {
        None => true,
        Some((x, Direction::Left)) => x > 0 && t.cursor + x <= t.text.len(),
        Some((x, Direction::Right)) => x > 0 && x <= t.cursor,
    }
}

/// The end of the selection away from the cursor (the cursor itself without a selection).
pub open spec fn anchor(t: TextV) -> int {
    match t.selection {
        None => t.cursor,
        Some((x, Direction::Left)) => t.cursor + x,
        Some((x, Direction::Right)) => t.cursor - x,
    }
}

/// The selected range, `lo .. hi` (empty at the cursor without a selection).
pub open spec fn sel_lo(t: TextV) -> int {
    match t.selection {
        Some((x, Direction::Right)) => t.cursor - x,
        _ => t.cursor,
    }
}

pub open spec fn sel_hi(t: TextV) -> int {
    match t.selection {
        Some((x, Direction::Left)) => t.cursor + x,
        _ => t.cursor,
    }
}

pub open spec fn text_of(cursor: int, selection: Option<(int, Direction)>, text: Seq<char>) -> TextV {
    TextV { cursor, selection, text }
}

/// A selection of `n` characters in direction `d`, none when `n` is 0.
pub open spec fn sized(n: int, d: Direction) -> Option<(int, Direction)> {
    if n > 0 {
        Some((n, d))
    } else {
        None
    }
}

pub open spec fn select_all_spec(t: TextV) -> TextV {
    text_of(t.text.len() as int, sized(t.text.len() as int, Direction::Right), t.text)
}

pub open spec fn to_end_spec(t: TextV) -> TextV {
    text_of(t.text.len() as int, None, t.text)
}

pub open spec fn to_start_spec(t: TextV) -> TextV {
    text_of(0, None, t.text)
}

/// Shift-up selects from the start of the text to the anchor.
pub open spec fn shift_up_spec(t: TextV) -> TextV {
    if t.cursor == 0 {
        t
    } else {
        text_of(0, sized(anchor(t), Direction::Left), t.text)
    }
}

/// Shift-down selects from the anchor to the end of the text.
pub open spec fn shift_down_spec(t: TextV) -> TextV {
    if t.cursor == t.text.len() {
        t
    } else {
        text_of(
            t.text.len() as int,
            sized(t.text.len() - anchor(t), Direction::Right),
            t.text,
        )
    }
}

/// Left moves to the start of the selection, or one character left.
pub open spec fn left_spec(t: TextV) -> TextV {
    match t.selection {
        None => text_of(if t.cursor > 0 { t.cursor - 1 } else { 0 }, None, t.text),
        _ => text_of(sel_lo(t), None, t.text),
    }
}

/// Right moves to the end of the selection, or one character right.
pub open spec fn right_spec(t: TextV) -> TextV {
    match t.selection {
        None => text_of(
            if t.cursor < t.text.len() {
                t.cursor + 1
            } else {
                t.cursor
            },
            None,
            t.text,
        ),
        _ => text_of(sel_hi(t), None, t.text),
    }
}

/// Shift-left moves the cursor one character left, growing or shrinking the selection.
pub open spec fn shift_left_spec(t: TextV) -> TextV {
    if t.cursor == 0 {
        t
    } else {
        text_of(
            t.cursor - 1,
            match t.selection {
                Some((x, Direction::Left)) => Some((x + 1, Direction::Left)),
                Some((x, Direction::Right)) => sized(x - 1, Direction::Right),
                None => Some((1, Direction::Left)),
            },
            t.text,
        )
    }
}

/// Shift-right moves the cursor one character right, growing or shrinking the selection.
pub open spec fn shift_right_spec(t: TextV) -> TextV {
    if t.cursor == t.text.len() {
        t
    } else {
        text_of(
            t.cursor + 1,
            match t.selection {
                Some((x, Direction::Left)) => sized(x - 1, Direction::Left),
                Some((x, Direction::Right)) => Some((x + 1, Direction::Right)),
                None => Some((1, Direction::Right)),
            },
            t.text,
        )
    }
}

/// The text with `lo .. hi` replaced by `ins`.
pub open spec fn splice(s: Seq<char>, lo: int, hi: int, ins: Seq<char>) -> Seq<char> {
    s.take(lo) + ins + s.skip(hi)
}

/// Delete removes the selection, or the character after the cursor.
pub open spec fn del_spec(t: TextV) -> TextV {
    match t.selection {
        None => if t.cursor < t.text.len() {
            text_of(t.cursor, None, splice(t.text, t.cursor, t.cursor + 1, Seq::empty()))
        } else {
            t
        },
        _ => text_of(sel_lo(t), None, splice(t.text, sel_lo(t), sel_hi(t), Seq::empty())),
    }
}

/// Backspace removes the selection, or the character before the cursor.
pub open spec fn backspace_spec(t: TextV) -> TextV {
    match t.selection {
        None => if t.cursor > 0 {
            text_of(t.cursor - 1, None, splice(t.text, t.cursor - 1, t.cursor, Seq::empty()))
        } else {
            t
        },
        _ => text_of(sel_lo(t), None, splice(t.text, sel_lo(t), sel_hi(t), Seq::empty())),
    }
}

/// Typing a character replaces the selection (or inserts at the cursor) and moves the
/// cursor past it.
pub open spec fn push_spec(t: TextV, c: char) -> TextV {
    text_of(sel_lo(t) + 1, None, splice(t.text, sel_lo(t), sel_hi(t), seq![c]))
}

/// Appending a character puts it at the end of the text, with the cursor after it and no
/// selection.
pub open spec fn append_spec(t: TextV, c: char) -> TextV {
    text_of(t.text.len() + 1int, None, t.text.push(c))
}

pub open spec fn clear_spec(t: TextV) -> TextV {
    text_of(0, None, Seq::empty())
}

/// Typing each character of `s` in turn.
pub open spec fn push_all_spec(t: TextV, s: Seq<char>) -> TextV
    decreases s.len(),
{
    if s.len() == 0 {
        t
    } else {
        push_all_spec(push_spec(t, s[0]), s.drop_first())
    }
}

/// Text with a cursor and a selection.
#[derive(Clone, Debug, Default)]
struct CursoredText {
    cursor: usize,
    selection: Option<(usize, Direction)>,
    text: Vec<char>,
}

pub open spec fn selection_int(s: Option<(usize, Direction)>) -> Option<(int, Direction)> {
    match s {
        Some((x, d)) => Some((x as int, d)),
        None => None,
    }
}

impl View for CursoredText {
    type V = TextV;

    closed spec fn view(&self) -> TextV {
        TextV {
            cursor: self.cursor as int,
            selection: selection_int(self.selection),
            text: self.text@,
        }
    }
}

/// `s` without the positions `lo .. hi`.
fn remove_range(s: &mut Vec<char>, lo: usize, hi: usize)
    requires
        lo <= hi <= old(s)@.len(),
    ensures
        final(s)@ == splice(old(s)@, lo as int, hi as int, Seq::empty()),
{
    let mut out: Vec<char> = Vec::new();
    let mut i: usize = 0;
    while i < s.len()
        invariant
            i <= s@.len(),
            lo <= hi <= s@.len(),
            out@ == (if i <= lo {
                s@.take(i as int)
            } else if i <= hi {
                s@.take(lo as int)
            } else {
                s@.take(lo as int) + s@.subrange(hi as int, i as int)
            }),
        decreases s.len() - i,
    {
        if i < lo || i >= hi {
            out.push(s[i]);
        }
        proof {
            if i + 1 <= lo {
                assert(s@.take(i + 1) =~= s@.take(i as int).push(s@[i as int]));
            } else if i < hi {
            } else if i == hi {
                assert(s@.subrange(hi as int, i + 1) =~= seq![s@[i as int]]);
            } else {
                assert(s@.subrange(hi as int, i + 1) =~= s@.subrange(hi as int, i as int).push(
                    s@[i as int],
                ));
            }
        }
        i = i + 1;
    }
    proof {
        if s@.len() <= lo {
            assert(s@.take(s@.len() as int) =~= s@.take(lo as int));
        }
        if hi == s@.len() && lo < hi {
            assert(s@.subrange(hi as int, hi as int) =~= Seq::<char>::empty());
        }
        assert(s@.skip(hi as int) =~= s@.subrange(hi as int, s@.len() as int));
    }
    *s = out;
    assert(s@ =~= splice(old(s)@, lo as int, hi as int, Seq::empty()));
}

impl CursoredText {
    fn select_all(&mut self)
        requires
            text_wf(old(self)@),
        ensures
            final(self)@ == select_all_spec(old(self)@),
            text_wf(final(self)@),
    {
        self.cursor = self.text.len();
        self.selection = if self.text.len() > 0 {
            Some((self.text.len(), Direction::Right))
        } else {
            None
        };
    }

    fn deselect(&mut self)
        requires
            text_wf(old(self)@),
        ensures
            final(self)@ == to_end_spec(old(self)@),
            text_wf(final(self)@),
    {
        self.cursor = self.text.len();
        self.selection = None;
    }

    fn key_up(&mut self)
        requires
            text_wf(old(self)@),
        ensures
            final(self)@ == to_start_spec(old(self)@),
            text_wf(final(self)@),
    {
        self.cursor = 0;
        self.selection = None;
    }

    fn key_down(&mut self)
        requires
            text_wf(old(self)@),
        ensures
            final(self)@ == to_end_spec(old(self)@),
            text_wf(final(self)@),
    {
        self.cursor = self.text.len();
        self.selection = None;
    }

    fn anchor(&self) -> (r: usize)
        requires
            text_wf(self@),
        ensures
            r == anchor(self@),
    {
        let _len = self.text.len();
        match self.selection {
            None => self.cursor,
            Some((x, Direction::Left)) => self.cursor + x,
            Some((x, Direction::Right)) => self.cursor - x,
        }
    }

    fn key_shift_up(&mut self)
        requires
            text_wf(old(self)@),
        ensures
            final(self)@ == shift_up_spec(old(self)@),
            text_wf(final(self)@),
    {
        if self.cursor == 0 {
            return ;
        }
        let m = self.anchor();
        self.selection = if m > 0 {
            Some((m, Direction::Left))
        } else {
            None
        };
        self.cursor = 0;
    }

    fn key_shift_down(&mut self)
        requires
            text_wf(old(self)@),
        ensures
            final(self)@ == shift_down_spec(old(self)@),
            text_wf(final(self)@),
    {
        if self.cursor == self.text.len() {
            return ;
        }
        let m = self.anchor();
        let size = self.text.len() - m;
        self.selection = if size > 0 {
            Some((size, Direction::Right))
        } else {
            None
        };
        self.cursor = self.text.len();
    }

    fn key_left(&mut self)
        requires
            text_wf(old(self)@),
        ensures
            final(self)@ == left_spec(old(self)@),
            text_wf(final(self)@),
    {
        match self.selection {
            Some((_, Direction::Left)) => {},
            Some((x, Direction::Right)) => {
                self.cursor = self.cursor - x;
            },
            None => {
                self.cursor = if self.cursor > 0 {
                    self.cursor - 1
                } else {
                    0
                };
            },
        }
        self.selection = None;
    }

    fn key_shift_left(&mut self)
        requires
            text_wf(old(self)@),
        ensures
            final(self)@ == shift_left_spec(old(self)@),
            text_wf(final(self)@),
    {
        if self.cursor == 0 {
            return ;
        }
        let _len = self.text.len();
        self.cursor = self.cursor - 1;
        self.selection = match self.selection {
            Some((x, Direction::Left)) => Some((x + 1, Direction::Left)),
            Some((x, Direction::Right)) => if x - 1 > 0 {
                Some((x - 1, Direction::Right))
            } else {
                None
            },
            None => Some((1, Direction::Left)),
        };
    }

    fn key_right(&mut self)
        requires
            text_wf(old(self)@),
        ensures
            final(self)@ == right_spec(old(self)@),
            text_wf(final(self)@),
    {
        let _len = self.text.len();
        match self.selection {
            Some((x, Direction::Left)) => {
                self.cursor = self.cursor + x;
            },
            Some((_, Direction::Right)) => {},
            None => {
                self.cursor = if self.cursor < self.text.len() {
                    self.cursor + 1
                } else {
                    self.cursor
                };
            },
        }
        self.selection = None;
    }

    fn key_shift_right(&mut self)
        requires
            text_wf(old(self)@),
        ensures
            final(self)@ == shift_right_spec(old(self)@),
            text_wf(final(self)@),
    {
        if self.cursor == self.text.len() {
            return ;
        }
        self.cursor = self.cursor + 1;
        self.selection = match self.selection {
            Some((x, Direction::Left)) => if x - 1 > 0 {
                Some((x - 1, Direction::Left))
            } else {
                None
            },
            Some((x, Direction::Right)) => Some((x + 1, Direction::Right)),
            None => Some((1, Direction::Right)),
        };
    }

    fn sel_lo(&self) -> (r: usize)
        requires
            text_wf(self@),
        ensures
            r == sel_lo(self@),
    {
        match self.selection {
            Some((x, Direction::Right)) => self.cursor - x,
            _ => self.cursor,
        }
    }

    fn sel_hi(&self) -> (r: usize)
        requires
            text_wf(self@),
        ensures
            r == sel_hi(self@),
    {
        let _len = self.text.len();
        match self.selection {
            Some((x, Direction::Left)) => self.cursor + x,
            _ => self.cursor,
        }
    }

    fn del(&mut self)
        requires
            text_wf(old(self)@),
        ensures
            final(self)@ == del_spec(old(self)@),
            text_wf(final(self)@),
    {
        match self.selection {
            None => {
                if self.cursor != self.text.len() {
                    let c = self.cursor;
                    remove_range(&mut self.text, c, c + 1);
                }
            },
            Some(_) => {
                let lo = self.sel_lo();
                let hi = self.sel_hi();
                remove_range(&mut self.text, lo, hi);
                self.cursor = lo;
            },
        }
        self.selection = None;
    }

    fn backspace(&mut self)
        requires
            text_wf(old(self)@),
        ensures
            final(self)@ == backspace_spec(old(self)@),
            text_wf(final(self)@),
    {
        match self.selection {
            None => {
                if self.cursor != 0 {
                    let c = self.cursor - 1;
                    remove_range(&mut self.text, c, c + 1);
                    self.cursor = c;
                }
            },
            Some(_) => {
                let lo = self.sel_lo();
                let hi = self.sel_hi();
                remove_range(&mut self.text, lo, hi);
                self.cursor = lo;
            },
        }
        self.selection = None;
    }

    fn push(&mut self, c: char)
        requires
            text_wf(old(self)@),
        ensures
            final(self)@ == push_spec(old(self)@, c),
            text_wf(final(self)@),
    {
        let lo = self.sel_lo();
        let hi = self.sel_hi();
        let ghost t = self.text@;
        remove_range(&mut self.text, lo, hi);
        self.text.insert(lo, c);
        assert(self.text@ =~= splice(t, lo as int, hi as int, seq![c]));
        let _len = self.text.len();
        self.cursor = lo + 1;
        self.selection = None;
    }

    fn append(&mut self, c: char)
        ensures
            final(self)@ == append_spec(old(self)@, c),
            text_wf(final(self)@),
    {
        self.text.push(c);
        self.cursor = self.text.len();
        self.selection = None;
    }

    fn clear(&mut self)
        ensures
            final(self)@ == clear_spec(old(self)@),
            text_wf(final(self)@),
    {
        self.text.clear();
        self.cursor = 0;
        self.selection = None;
    }

    fn can_autocomplete(&self) -> (r: bool)
        ensures
            r == (self@.selection is None),
    {
        self.selection.is_none()
    }
}

} // verus!

verus! {

// ---------------------------------------------------------------------------
// Editing a value
// ---------------------------------------------------------------------------

/// A value being edited. Until the first key that edits, typing replaces the whole value.
pub struct EditState {
    pub started_edit: bool,
    value: CursoredText,
}

pub ghost struct EditV {
    pub started_edit: bool,
    pub value: TextV,
}

impl View for EditState {
    type V = EditV;

    closed spec fn view(&self) -> EditV {
        EditV { started_edit: self.started_edit, value: self.value@ }
    }
}

/// The pieces of an edited text: before, inside and after the selection (with the
/// selection's direction), or before and after the cursor.
pub enum CharChunks<'a> {
    Selected(&'a [char], &'a [char], &'a [char], Direction),
    Unselected(String, String),
}

pub open spec fn edit_started(e: EditV, t: TextV) -> EditV {
    EditV { started_edit: true, value: t }
}

/// The text a first edit works on: the value so far once editing has started, else nothing.
pub open spec fn edit_base(e: EditV) -> TextV {
    if e.started_edit {
        e.value
    } else {
        clear_spec(e.value)
    }
}

/// The pieces `char_chunks` splits a text into.
pub open spec fn chunks_spec(t: TextV) -> (Seq<char>, Seq<char>, Seq<char>) {
    (t.text.take(sel_lo(t)), t.text.subrange(sel_lo(t), sel_hi(t)), t.text.skip(sel_hi(t)))
}

impl Default for EditState {
    fn default() -> (r: EditState)
        ensures
            r@ == (EditV { started_edit: false, value: clear_spec(r@.value) }),
            text_wf(r@.value),
    {
        EditState {
            started_edit: false,
            value: CursoredText { cursor: 0, selection: None, text: Vec::new() },
        }
    }
}

impl EditState {
    /// Whether the state is consistent: the cursor and selection lie within the text.
    pub closed spec fn wf(&self) -> bool {
        text_wf(self.value@)
    }

    /// Starts editing `value`, with the cursor at its end.
    pub fn new(value: &str) -> (r: EditState)
        ensures
            r@ == (EditV {
                started_edit: false,
                value: text_of(value@.len() as int, None, value@),
            }),
            r.wf(),
    {
        let text = chars_of(value);
        EditState {
            started_edit: false,
            value: CursoredText { cursor: text.len(), selection: None, text },
        }
    }

    /// Whether editing has started.
    pub fn is_started(&self) -> (r: bool)
        ensures
            r == self@.started_edit,
    {
        self.started_edit
    }

    /// The edited value.
    pub fn value_to_string(&self) -> (r: String)
        ensures
            r@ == self@.value.text,
    {
        string_from_chars(self.value.text.as_slice())
    }

    /// Deletes the selection or the character after the cursor; before the first edit,
    /// clears the value.
    pub fn del(&mut self)
        requires
            old(self).wf(),
        ensures
            final(self).wf(),
            final(self)@ == (if old(self)@.started_edit {
                edit_started(old(self)@, del_spec(old(self)@.value))
            } else {
                edit_started(old(self)@, clear_spec(old(self)@.value))
            }),
    {
        if self.started_edit {
            self.value.del();
        } else {
            self.value.clear();
        }
        self.started_edit = true;
    }

    /// Types `c`; before the first edit, it replaces the value.
    pub fn push(&mut self, c: char)
        requires
            old(self).wf(),
        ensures
            final(self).wf(),
            final(self)@ == edit_started(old(self)@, push_spec(edit_base(old(self)@), c)),
    {
        if !self.started_edit {
            self.value.clear();
        }
        self.started_edit = true;
        self.value.push(c);
    }

    /// Types each character of `s`; before the first edit, they replace the value.
    pub fn extend(&mut self, s: &str)
        requires
            old(self).wf(),
        ensures
            final(self).wf(),
            final(self)@ == edit_started(old(self)@, push_all_spec(edit_base(old(self)@), s@)),
    {
        if !self.started_edit {
            self.value.clear();
        }
        self.started_edit = true;
        let chars = chars_of(s);
        let ghost base = self.value@;
        assert(s@.skip(0) =~= s@);
        let mut i: usize = 0;
        while i < chars.len()
            invariant
                i <= chars@.len(),
                chars@ == s@,
                text_wf(self.value@),
                self.started_edit,
                push_all_spec(base, s@) == push_all_spec(self.value@, s@.skip(i as int)),
            decreases chars.len() - i,
        {
            let ghost before = self.value@;
            self.value.push(chars[i]);
            assert(s@.skip(i as int).drop_first() =~= s@.skip(i + 1));
            assert(s@.skip(i as int)[0] == chars@[i as int]);
            i = i + 1;
        }
        assert(s@.skip(chars@.len() as int) =~= Seq::<char>::empty());
    }

    /// Deletes the selection or the character before the cursor; before the first edit,
    /// clears the value.
    pub fn backspace(&mut self)
        requires
            old(self).wf(),
        ensures
            final(self).wf(),
            final(self)@ == (if old(self)@.started_edit {
                edit_started(old(self)@, backspace_spec(old(self)@.value))
            } else {
                edit_started(old(self)@, clear_spec(old(self)@.value))
            }),
    {
        if self.started_edit {
            self.value.backspace();
        } else {
            self.value.clear();
        }
        self.started_edit = true;
    }

    /// Moves the cursor to the start.
    pub fn key_up(&mut self)
        requires
            old(self).wf(),
        ensures
            final(self).wf(),
            final(self)@ == edit_started(old(self)@, to_start_spec(old(self)@.value)),
    {
        self.started_edit = true;
        self.value.key_up()
    }

    /// Selects from the start to the selection's far end.
    pub fn key_shift_up(&mut self)
        requires
            old(self).wf(),
        ensures
            final(self).wf(),
            final(self)@ == edit_started(old(self)@, shift_up_spec(old(self)@.value)),
    {
        self.started_edit = true;
        self.value.key_shift_up()
    }

    /// Moves the cursor to the end.
    pub fn key_down(&mut self)
        requires
            old(self).wf(),
        ensures
            final(self).wf(),
            final(self)@ == edit_started(old(self)@, to_end_spec(old(self)@.value)),
    {
        self.started_edit = true;
        self.value.key_down()
    }

    /// Selects from the selection's far end to the end.
    pub fn key_shift_down(&mut self)
        requires
            old(self).wf(),
        ensures
            final(self).wf(),
            final(self)@ == edit_started(old(self)@, shift_down_spec(old(self)@.value)),
    {
        self.started_edit = true;
        self.value.key_shift_down()
    }

    /// Moves the cursor left, or to the start of the selection.
    pub fn key_left(&mut self)
        requires
            old(self).wf(),
        ensures
            final(self).wf(),
            final(self)@ == edit_started(old(self)@, left_spec(old(self)@.value)),
    {
        self.started_edit = true;
        self.value.key_left()
    }

    /// Moves the cursor left, growing or shrinking the selection.
    pub fn key_shift_left(&mut self)
        requires
            old(self).wf(),
        ensures
            final(self).wf(),
            final(self)@ == edit_started(old(self)@, shift_left_spec(old(self)@.value)),
    {
        self.started_edit = true;
        self.value.key_shift_left()
    }

    /// Moves the cursor right, or to the end of the selection.
    pub fn key_right(&mut self)
        requires
            old(self).wf(),
        ensures
            final(self).wf(),
            final(self)@ == edit_started(old(self)@, right_spec(old(self)@.value)),
    {
        self.started_edit = true;
        self.value.key_right()
    }

    /// Moves the cursor right, growing or shrinking the selection.
    pub fn key_shift_right(&mut self)
        requires
            old(self).wf(),
        ensures
            final(self).wf(),
            final(self)@ == edit_started(old(self)@, shift_right_spec(old(self)@.value)),
    {
        self.started_edit = true;
        self.value.key_shift_right()
    }

    /// Empties the value.
    pub fn clear(&mut self)
        ensures
            final(self).wf(),
            final(self)@ == edit_started(old(self)@, clear_spec(old(self)@.value)),
    {
        self.started_edit = true;
        self.value.clear();
    }

    /// Selects the whole value.
    pub fn select_all(&mut self)
        requires
            old(self).wf(),
        ensures
            final(self).wf(),
            final(self)@ == edit_started(old(self)@, select_all_spec(old(self)@.value)),
    {
        self.started_edit = true;
        self.value.select_all()
    }

    /// Clears the selection, moving the cursor to the end.
    pub fn deselect(&mut self)
        requires
            old(self).wf(),
        ensures
            final(self).wf(),
            final(self)@ == edit_started(old(self)@, to_end_spec(old(self)@.value)),
    {
        self.started_edit = true;
        self.value.deselect();
    }

    /// The value split at the selection, or at the cursor.
    pub fn char_chunks(&self) -> (r: CharChunks<'_>)
        requires
            self.wf(),
        ensures
            match r {
                CharChunks::Selected(a, b, c, d) => self@.value.selection matches Some(
                    (_, sd),
                ) && sd == d && (a@, b@, c@) == chunks_spec(self@.value),
                CharChunks::Unselected(a, b) => self@.value.selection is None && a@
                    == self@.value.text.take(self@.value.cursor) && b@ == self@.value.text.skip(
                    self@.value.cursor,
                ),
            },
    {
        chunks_of(&self.value, false)
    }

    /// The selected characters, if any.
    pub fn selected(&self) -> (r: Option<&[char]>)
        requires
            self.wf(),
        ensures
            match r {
                Some(s) => self@.value.selection is Some && s@ == chunks_spec(self@.value).1,
                None => self@.value.selection is None,
            },
    {
        match self.char_chunks() {
            CharChunks::Selected(_, inside, _, _) => Some(inside),
            CharChunks::Unselected(_, _) => None,
        }
    }

    /// The state is consistent exactly when the cursor and selection lie within the text.
    pub proof fn lemma_wf(&self)
        ensures
            self.wf() <==> text_wf(self@.value),
    {
    }
}

/// In a consistent text the selection lies within the text, and the pieces `char_chunks`
/// gives (before, inside and after the selection) put together are the text.
pub proof fn lemma_chunks_partition(t: TextV)
    requires
        text_wf(t),
    ensures
        0 <= sel_lo(t) <= t.cursor <= t.text.len(),
        0 <= t.cursor <= sel_hi(t) <= t.text.len(),
        chunks_spec(t).0 + chunks_spec(t).1 + chunks_spec(t).2 == t.text,
        chunks_spec(t).0.len() == sel_lo(t),
        chunks_spec(t).1.len() == sel_hi(t) - sel_lo(t),
{
    assert(chunks_spec(t).0 + chunks_spec(t).1 + chunks_spec(t).2 =~= t.text);
}

/// Splits the text at its selection; without one, at the cursor (as strings), unless
/// `skip_unselected`, where the strings are left empty for the caller to fill.
fn chunks_of(ct: &CursoredText, skip_unselected: bool) -> (r: CharChunks<'_>)
    requires
        text_wf(ct@),
    ensures
        match r {
            CharChunks::Selected(a, b, c, d) => ct@.selection matches Some((_, sd)) && sd == d
                && (a@, b@, c@) == chunks_spec(ct@),
            CharChunks::Unselected(a, b) => ct@.selection is None && (!skip_unselected ==> a@
                == ct@.text.take(ct@.cursor) && b@ == ct@.text.skip(ct@.cursor)),
        },
{
    let all = ct.text.as_slice();
    match ct.selection {
        Some((x, d)) => {
            let lo = ct.sel_lo();
            let hi = ct.sel_hi();
            let (a, rest) = all.split_at(lo);
            let (b, c) = rest.split_at(hi - lo);
            assert(b@ =~= ct@.text.subrange(lo as int, hi as int));
            assert(c@ =~= ct@.text.skip(hi as int));
            assert(a@ =~= ct@.text.take(lo as int));
            CharChunks::Selected(a, b, c, d)
        },
        None => {
            if skip_unselected {
                CharChunks::Unselected(String::new(), String::new())
            } else {
                let (a, b) = all.split_at(ct.cursor);
                assert(a@ =~= ct@.text.take(ct@.cursor));
                assert(b@ =~= ct@.text.skip(ct@.cursor));
                CharChunks::Unselected(string_from_chars(a), string_from_chars(b))
            }
        },
    }
}

} // verus!

verus! {

// ---------------------------------------------------------------------------
// Splitting a command line into words
// ---------------------------------------------------------------------------

/// The quote a word is inside.
#[derive(Copy, Clone, Debug, PartialEq, Eq, Structural)]
pub enum Quoted {
    Double,
    Single,
    NoQuote,
}

pub open spec fn quote_of(c: char) -> Quoted {
    if c == '"' {
        Quoted::Double
    } else if c == '\'' {
        Quoted::Single
    } else {
        Quoted::NoQuote
    }
}

/// The state of a word scan: the quote open, where the next scan starts, whether the text
/// has been read to its end, whether the word read had escaped characters, whether the next
/// character is escaped, and the word read so far.
pub ghost struct IterV {
    pub quoted: Quoted,
    pub start: int,
    pub complete: bool,
    pub was_escaped: bool,
    pub escaped: bool,
    pub sub: Seq<char>,
}

/// Reads `text` from `base + end` on, in state `st`, to the next word; the words split at
/// spaces outside quotes, a quote character at the start of a scan opens a quoted word
/// that the same quote character closes, and a backslash escapes the character after it.
/// Where the text ends first, what was read is the last word, given once.
pub open spec fn scan(text: Seq<char>, st: IterV, base: int, end: int) -> (
    IterV,
    Option<(bool, Seq<char>)>,
)
    decreases text.len() - base - end,
{
    if base + end >= text.len() || end < 0 {
        if st.complete {
            (st, None)
        } else {
            (
                IterV { complete: true, sub: Seq::empty(), ..st },
                Some((st.was_escaped || st.quoted != Quoted::NoQuote, st.sub)),
            )
        }
    } else {
        let c = text[base + end];
        if st.escaped {
            scan(
                text,
                IterV { was_escaped: true, sub: st.sub.push(c), escaped: false, ..st },
                base,
                end + 1,
            )
        } else if c == ' ' {
            if st.quoted == Quoted::NoQuote {
                if end == 0 {
                    scan(text, IterV { start: st.start + 1, ..st }, base, end + 1)
                } else {
                    (
                        IterV {
                            start: st.start + end + 1,
                            sub: Seq::empty(),
                            was_escaped: false,
                            ..st
                        },
                        Some((st.was_escaped, st.sub)),
                    )
                }
            } else {
                scan(text, IterV { sub: st.sub.push(c), ..st }, base, end + 1)
            }
        } else if c == '"' || c == '\'' {
            if st.quoted == quote_of(c) {
                (
                    IterV {
                        start: st.start + end + 1,
                        quoted: Quoted::NoQuote,
                        sub: Seq::empty(),
                        ..st
                    },
                    Some((true, st.sub)),
                )
            } else if end == 0 {
                scan(text, IterV { quoted: quote_of(c), start: st.start + 1, ..st }, base, end + 1)
            } else {
                scan(text, IterV { sub: st.sub.push(c), ..st }, base, end + 1)
            }
        } else if c == '\\' {
            scan(text, IterV { escaped: true, ..st }, base, end + 1)
        } else {
            scan(text, IterV { sub: st.sub.push(c), ..st }, base, end + 1)
        }
    }
}

/// The next word of `text` from state `st`, and the state after it.
pub open spec fn next_word_spec(text: Seq<char>, st: IterV) -> (IterV, Option<(bool, Seq<char>)>) {
    if st.start >= text.len() {
        (st, None)
    } else {
        scan(text, st, st.start, 0)
    }
}

/// What remains of a scan: twice the characters left, and one more until the end is read.
pub open spec fn scan_measure(text: Seq<char>, st: IterV) -> nat {
    (2 * (if st.start < text.len() {
        text.len() - st.start
    } else {
        0
    }) + (if st.complete {
        0int
    } else {
        1
    })) as nat
}

proof fn lemma_scan_progress(text: Seq<char>, st: IterV, base: int, end: int, c0: bool)
    requires
        0 <= base,
        0 <= end,
        st.start == base || (end >= 1 && st.start == base + 1),
        st.complete == c0,
    ensures
        scan(text, st, base, end).1 is Some ==> ((scan(text, st, base, end).0.start > base
            && scan(text, st, base, end).0.complete == c0) || (!c0 && scan(
            text,
            st,
            base,
            end,
        ).0.complete && scan(text, st, base, end).0.start >= base)),
    decreases text.len() - base - end,
{
    if base + end >= text.len() || end < 0 {
    } else {
        let c = text[base + end];
        if st.escaped {
            lemma_scan_progress(
                text,
                IterV { was_escaped: true, sub: st.sub.push(c), escaped: false, ..st },
                base,
                end + 1,
                c0,
            );
        } else if c == ' ' {
            if st.quoted == Quoted::NoQuote {
                if end == 0 {
                    lemma_scan_progress(text, IterV { start: st.start + 1, ..st }, base, end + 1, c0);
                }
            } else {
                lemma_scan_progress(text, IterV { sub: st.sub.push(c), ..st }, base, end + 1, c0);
            }
        } else if c == '"' || c == '\'' {
            if st.quoted == quote_of(c) {
            } else if end == 0 {
                lemma_scan_progress(
                    text,
                    IterV { quoted: quote_of(c), start: st.start + 1, ..st },
                    base,
                    end + 1,
                    c0,
                );
            } else {
                lemma_scan_progress(text, IterV { sub: st.sub.push(c), ..st }, base, end + 1, c0);
            }
        } else if c == '\\' {
            lemma_scan_progress(text, IterV { escaped: true, ..st }, base, end + 1, c0);
        } else {
            lemma_scan_progress(text, IterV { sub: st.sub.push(c), ..st }, base, end + 1, c0);
        }
    }
}

/// Each word read leaves less of the scan to do.
pub proof fn lemma_next_word_progress(text: Seq<char>, st: IterV)
    requires
        st.start >= 0,
    ensures
        next_word_spec(text, st).1 is Some ==> scan_measure(text, next_word_spec(text, st).0)
            < scan_measure(text, st),
{
    if st.start < text.len() {
        lemma_scan_progress(text, st, st.start, 0, st.complete);
    }
}

/// The words read from state `st` on.
pub open spec fn words_from(text: Seq<char>, st: IterV) -> Seq<(bool, Seq<char>)>
    decreases scan_measure(text, st),
{
    if st.start < 0 {
        Seq::empty()
    } else {
        let n = next_word_spec(text, st);
        match n.1 {
            None => Seq::empty(),
            Some(w) => {
                proof {
                    lemma_next_word_progress(text, st);
                }
                seq![w] + words_from(text, n.0)
            },
        }
    }
}

/// The state a scan of a whole text starts in.
pub open spec fn scan_start() -> IterV {
    IterV {
        quoted: Quoted::NoQuote,
        start: 0,
        complete: false,
        was_escaped: false,
        escaped: false,
        sub: Seq::empty(),
    }
}

/// The words of a command line, each with whether it was quoted or escaped.
pub open spec fn words_of(text: Seq<char>) -> Seq<(bool, Seq<char>)> {
    words_from(text, scan_start())
}

// ---------------------------------------------------------------------------
// Writing words back as a command line
// ---------------------------------------------------------------------------

/// A word with each double quote escaped by a backslash.
pub open spec fn escape_quotes(s: Seq<char>) -> Seq<char>
    decreases s.len(),
{
    if s.len() == 0 {
        Seq::empty()
    } else {
        escape_quotes(s.drop_last()) + (if s.last() == '"' {
            seq!['\\', '"']
        } else {
            seq![s.last()]
        })
    }
}

/// A word as written on a command line: in double quotes (with its own double quotes
/// escaped) where it needs escaping, else as it is.
pub open spec fn render_word(w: (bool, Seq<char>)) -> Seq<char> {
    if w.0 {
        seq!['"'] + escape_quotes(w.1) + seq!['"']
    } else {
        w.1
    }
}

/// The words written out, separated by single spaces.
pub open spec fn join_words(v: Seq<(bool, Seq<char>)>) -> Seq<char>
    decreases v.len(),
{
    if v.len() == 0 {
        Seq::empty()
    } else if v.len() == 1 {
        render_word(v[0])
    } else {
        join_words(v.drop_last()) + seq![' '] + render_word(v.last())
    }
}

pub open spec fn words_view(v: Seq<(bool, String)>) -> Seq<(bool, Seq<char>)> {
    Seq::new(v.len(), |i: int| (v[i].0, v[i].1@))
}

fn push_rendered(out: &mut Vec<char>, w: &(bool, String))
    ensures
        final(out)@ == old(out)@ + render_word((w.0, w.1@)),
{
    let chars = chars_of(w.1.as_str());
    if !w.0 {
        let mut i: usize = 0;
        while i < chars.len()
            invariant
                i <= chars@.len(),
                chars@ == w.1@,
                out@ == old(out)@ + chars@.take(i as int),
            decreases chars.len() - i,
        {
            out.push(chars[i]);
            assert(chars@.take(i + 1) =~= chars@.take(i as int).push(chars@[i as int]));
            i = i + 1;
        }
        assert(chars@.take(chars@.len() as int) =~= chars@);
        return ;
    }
    out.push('"');
    let mut i: usize = 0;
    while i < chars.len()
        invariant
            i <= chars@.len(),
            chars@ == w.1@,
            out@ == old(out)@ + seq!['"'] + escape_quotes(chars@.take(i as int)),
        decreases chars.len() - i,
    {
        let c = chars[i];
        if c == '"' {
            out.push('\\');
            out.push('"');
        } else {
            out.push(c);
        }
        assert(chars@.take(i + 1).drop_last() =~= chars@.take(i as int));
        i = i + 1;
    }
    assert(chars@.take(chars@.len() as int) =~= chars@);
    out.push('"');
}

/// The words written out as a command line, separated by single spaces.
fn vals_to_string(values: &Vec<(bool, String)>) -> (r: String)
    ensures
        r@ == join_words(words_view(values@)),
{
    let mut out: Vec<char> = Vec::new();
    let mut i: usize = 0;
    while i < values.len()
        invariant
            i <= values@.len(),
            out@ == join_words(words_view(values@).take(i as int)),
        decreases values.len() - i,
    {
        if i > 0 {
            out.push(' ');
        }
        push_rendered(&mut out, &values[i]);
        proof {
            let wv = words_view(values@);
            assert(wv.take(i + 1).drop_last() =~= wv.take(i as int));
            assert(wv.take(i + 1).last() == (values@[i as int].0, values@[i as int].1@));
            if i == 0 {
                assert(join_words(wv.take(0)) =~= Seq::<char>::empty());
            }
        }
        i = i + 1;
    }
    assert(words_view(values@).take(values@.len() as int) =~= words_view(values@));
    string_from_chars(out.as_slice())
}

} // verus!

verus! {

// ---------------------------------------------------------------------------
// Completing paths
// ---------------------------------------------------------------------------

/// The number of bytes a text takes in UTF-8, as a `usize`.
pub open spec fn byte_len(s: Seq<char>) -> usize {
    vstd::utf8::encode_utf8(s).len() as usize
}

/// Offers the candidates for completing a word in turn: those at least as long (in bytes)
/// as the word, and, where asked, only directories. The candidates are paths, each with
/// whether it is a directory.
pub struct AutoCompleter {
    word: String,
    possibilities: Vec<(String, bool)>,
    curr_state: usize,
}

pub ghost struct CompleterV {
    pub word: Seq<char>,
    pub possibilities: Seq<(Seq<char>, bool)>,
    pub state: int,
}

impl View for AutoCompleter {
    type V = CompleterV;

    closed spec fn view(&self) -> CompleterV {
        CompleterV {
            word: self.word@,
            possibilities: Seq::new(
                self.possibilities@.len(),
                |i: int| (self.possibilities@[i].0@, self.possibilities@[i].1),
            ),
            state: self.curr_state as int,
        }
    }
}

pub open spec fn completer_wf(a: CompleterV) -> bool {
    0 <= a.state <= a.possibilities.len()
}

/// Whether candidate `i` may complete the word.
pub open spec fn candidate_fits(a: CompleterV, i: int, dir: bool) -> bool {
    byte_len(a.possibilities[i].0) >= byte_len(a.word) && (dir ==> a.possibilities[i].1)
}

/// The first candidate in `lo .. hi` that may complete the word.
pub open spec fn first_fit(a: CompleterV, lo: int, hi: int, dir: bool) -> Option<int>
    decreases hi - lo,
{
    if lo >= hi {
        None
    } else if candidate_fits(a, lo, dir) {
        Some(lo)
    } else {
        first_fit(a, lo + 1, hi, dir)
    }
}

/// The next completion: the first fitting candidate after the last one offered, going round
/// to the start; and the completer after it.
pub open spec fn next_completion(a: CompleterV, dir: bool) -> (CompleterV, Option<Seq<char>>) {
    match first_fit(a, a.state, a.possibilities.len() as int, dir) {
        Some(i) => (CompleterV { state: i + 1, ..a }, Some(a.possibilities[i].0)),
        None => match first_fit(a, 0, a.state, dir) {
            Some(i) => (CompleterV { state: i + 1, ..a }, Some(a.possibilities[i].0)),
            None => (a, None),
        },
    }
}

proof fn lemma_first_fit_bounds(a: CompleterV, lo: int, hi: int, dir: bool)
    ensures
        first_fit(a, lo, hi, dir) matches Some(i) ==> lo <= i < hi && candidate_fits(a, i, dir),
    decreases hi - lo,
{
    if lo < hi && !candidate_fits(a, lo, dir) {
        lemma_first_fit_bounds(a, lo + 1, hi, dir);
    }
}

proof fn lemma_first_fit_none(a: CompleterV, lo: int, hi: int, dir: bool)
    ensures
        first_fit(a, lo, hi, dir) is None <==> forall|i: int| lo <= i < hi ==> !#[trigger] candidate_fits(a, i, dir),
    decreases hi - lo,
{
    if lo < hi && !candidate_fits(a, lo, dir) {
        lemma_first_fit_none(a, lo + 1, hi, dir);
        assert forall|i: int| lo <= i < hi && (forall|j: int| lo + 1 <= j < hi ==> !#[trigger] candidate_fits(a, j, dir))
            implies !#[trigger] candidate_fits(a, i, dir) by {
            if i > lo {
                assert(lo + 1 <= i < hi);
            }
        }
    }
}

/// A completion is offered exactly where some candidate fits (at least as long as the
/// word and, where asked, a directory), and the one offered fits.
pub proof fn lemma_completion_found(a: CompleterV, dir: bool)
    requires
        completer_wf(a),
    ensures
        next_completion(a, dir).1 is Some <==> exists|i: int|
            0 <= i < a.possibilities.len() && #[trigger] candidate_fits(a, i, dir),
        next_completion(a, dir).1 matches Some(p) ==> exists|i: int|
            0 <= i < a.possibilities.len() && #[trigger] candidate_fits(a, i, dir) && a.possibilities[i].0 == p,
{
    let n = a.possibilities.len() as int;
    lemma_first_fit_none(a, a.state, n, dir);
    lemma_first_fit_none(a, 0, a.state, dir);
    lemma_first_fit_bounds(a, a.state, n, dir);
    lemma_first_fit_bounds(a, 0, a.state, dir);
    if exists|i: int| 0 <= i < n && #[trigger] candidate_fits(a, i, dir) {
        let i = choose|i: int| 0 <= i < n && #[trigger] candidate_fits(a, i, dir);
        if i < a.state {
            assert(!(forall|j: int| 0 <= j < a.state ==> !#[trigger] candidate_fits(a, j, dir)));
        } else {
            assert(!(forall|j: int| a.state <= j < n ==> !#[trigger] candidate_fits(a, j, dir)));
        }
    }
}

impl AutoCompleter {
    /// A completer for `word` over the candidates, in the order given.
    pub fn new(word: String, possibilities: Vec<(String, bool)>) -> (r: AutoCompleter)
        ensures
            r@.word == word@,
            r@.possibilities == Seq::new(
                possibilities@.len(),
                |i: int| (possibilities@[i].0@, possibilities@[i].1),
            ),
            r@.state == 0,
    {
        AutoCompleter { word, possibilities, curr_state: 0 }
    }

    /// Whether the state is consistent.
    pub open spec fn wf(&self) -> bool {
        completer_wf(self@)
    }

    proof fn lemma_new_wf(&self)
        requires
            self@.state == 0,
        ensures
            self.wf(),
    {
    }

    fn fits(&self, i: usize, dir: bool) -> (r: bool)
        requires
            i < self@.possibilities.len(),
        ensures
            r == candidate_fits(self@, i as int, dir),
    {
        let p = &self.possibilities[i];
        p.0.as_str().len() >= self.word.as_str().len() && (!dir || p.1)
    }

    /// The next completion, going round the candidates; `dir` asks for directories only.
    pub fn next_word(&mut self, dir: bool) -> (r: Option<String>)
        requires
            old(self).wf(),
        ensures
            final(self).wf(),
            final(self)@ == next_completion(old(self)@, dir).0,
            match r {
                Some(s) => next_completion(old(self)@, dir).1 == Some(s@),
                None => next_completion(old(self)@, dir).1 is None,
            },
    {
        let ghost a = self@;
        let init = self.curr_state;
        let n = self.possibilities.len();
        let mut i = init;
        while i < n
            invariant
                init <= i <= n,
                n == a.possibilities.len(),
                self@ == a,
                a == old(self)@,
                init == a.state,
                first_fit(a, init as int, n as int, dir) == first_fit(a, i as int, n as int, dir),
            decreases n - i,
        {
            if self.fits(i, dir) {
                assert(first_fit(a, i as int, n as int, dir) == Some(i as int));
                assert(a.possibilities[i as int].0 == self.possibilities@[i as int].0@);
                self.curr_state = i + 1;
                let r = copy_str(&self.possibilities[i].0);
                assert(self@ =~= (CompleterV { state: i + 1, ..a }));
                assert(next_completion(a, dir).1 == Some(r@));
                assert(next_completion(a, dir).0 == (CompleterV { state: i + 1, ..a }));
                return Some(r);
            }
            i = i + 1;
        }
        let mut j: usize = 0;
        while j < init
            invariant
                j <= init <= n,
                n == a.possibilities.len(),
                self@ == a,
                a == old(self)@,
                init == a.state,
                first_fit(a, init as int, n as int, dir) is None,
                first_fit(a, 0, init as int, dir) == first_fit(a, j as int, init as int, dir),
            decreases init - j,
        {
            if self.fits(j, dir) {
                assert(first_fit(a, j as int, init as int, dir) == Some(j as int));
                assert(a.possibilities[j as int].0 == self.possibilities@[j as int].0@);
                self.curr_state = j + 1;
                let r = copy_str(&self.possibilities[j].0);
                assert(self@ =~= (CompleterV { state: j + 1, ..a }));
                return Some(r);
            }
            j = j + 1;
        }
        None
    }
}

fn copy_str(s: &String) -> (r: String)
    ensures
        r@ == s@,
{
    s.clone()
}

} // verus!

verus! {

// ---------------------------------------------------------------------------
// The command line being typed
// ---------------------------------------------------------------------------

/// Why a completion could not be prepared.
#[derive(Copy, Clone, Debug, PartialEq, Eq)]
pub enum AutoCompleteError {
    InvalidPattern,
}

#[derive(Copy, Clone, Debug, PartialEq, Eq)]
pub enum CommandStringError {
    AutoComplete(AutoCompleteError),
}

/// A command line being typed, with a path completion that can be offered in place of its
/// last word.
pub struct CommandString {
    cursored_text: CursoredText,
    auto_fill: Option<AutoCompleter>,
    autofilled: Option<String>,
    open_end: bool,
    keep_last: bool,
}

pub ghost struct CommandV {
    pub text: TextV,
    pub completer: Option<CompleterV>,
    pub autofilled: Option<Seq<char>>,
    pub open_end: bool,
    pub keep_last: bool,
}

impl View for CommandString {
    type V = CommandV;

    closed spec fn view(&self) -> CommandV {
        CommandV {
            text: self.cursored_text@,
            completer: match self.auto_fill {
                Some(a) => Some(a@),
                None => None,
            },
            autofilled: match self.autofilled {
                Some(s) => Some(s@),
                None => None,
            },
            open_end: self.open_end,
            keep_last: self.keep_last,
        }
    }
}

/// The cursor and selection lie within the text, and a completer's position within its
/// candidates.
pub open spec fn command_wf(c: CommandV) -> bool {
    &&& text_wf(c.text)
    &&& (c.completer matches Some(a) ==> completer_wf(a))
}

/// The words of the line with the offered completion in place of the last word (or after
/// it, where the last word is kept); the completion needs escaping where it has a space.
pub open spec fn autofilled_words(c: CommandV) -> Seq<(bool, Seq<char>)> {
    let w = words_of(c.text.text);
    match c.autofilled {
        Some(s) => (if c.keep_last || w.len() == 0 {
            w
        } else {
            w.drop_last()
        }).push((s.contains(' '), s)),
        None => w,
    }
}

/// The line with any offered completion written into it, the cursor at its end.
pub open spec fn written_back(c: CommandV) -> CommandV {
    match c.autofilled {
        Some(_) => {
            let t = join_words(autofilled_words(c));
            CommandV { text: text_of(t.len() as int, None, t), autofilled: None, ..c }
        },
        None => c,
    }
}

/// The word a new completer is to complete: the last word, or nothing after a flag
/// followed by a space (where the flag is then kept); and whether the last word is kept.
pub open spec fn completion_word(c: CommandV) -> (Seq<char>, bool) {
    let w = words_of(c.text.text);
    if w.len() == 0 {
        (Seq::empty(), c.keep_last)
    } else {
        let last = w.last();
        if !last.0 && last.1.len() > 0 && last.1[0] == '-' && c.text.text.len() > 0
            && c.text.text.last() == ' ' {
            (Seq::empty(), true)
        } else {
            (last.1, false)
        }
    }
}

/// Offering the completer's next completion (only directories where `dir`): unless text
/// is selected, the end of the line is closed and the completion, where there is one,
/// offered.
pub open spec fn auto_fill_spec(c: CommandV, dir: bool) -> CommandV {
    if c.text.selection is Some {
        c
    } else {
        match c.completer {
            None => CommandV { open_end: false, ..c },
            Some(a) => {
                let n = next_completion(a, dir);
                CommandV {
                    open_end: false,
                    completer: Some(n.0),
                    autofilled: match n.1 {
                        Some(p) => Some(p),
                        None => c.autofilled,
                    },
                    ..c
                }
            },
        }
    }
}

/// The line as displayed: with any offered completion written in (without a closing quote
/// while the end is open), else the text typed.
pub open spec fn display_spec(c: CommandV) -> Seq<char> {
    match c.autofilled {
        Some(_) => {
            let v = join_words(autofilled_words(c));
            if c.open_end && v.len() > 0 && v.last() == '"' {
                v.drop_last()
            } else {
                v
            }
        },
        None => c.text.text,
    }
}

pub open spec fn with_text(c: CommandV, t: TextV) -> CommandV {
    CommandV { text: t, ..c }
}

/// Reading words needs the text's length to stay below the largest `usize`.
pub open spec fn readable(c: CommandV) -> bool {
    c.text.text.len() < usize::MAX
}

/// Reads the words of a command line in turn.
pub struct CommandStringIter<'a> {
    command_string: &'a CommandString,
    quoted: Quoted,
    start: usize,
    complete: bool,
    was_escaped: bool,
    escaped: bool,
    sub_string: String,
}

impl<'a> View for CommandStringIter<'a> {
    type V = IterV;

    closed spec fn view(&self) -> IterV {
        IterV {
            quoted: self.quoted,
            start: self.start as int,
            complete: self.complete,
            was_escaped: self.was_escaped,
            escaped: self.escaped,
            sub: self.sub_string@,
        }
    }
}

impl<'a> CommandStringIter<'a> {
    /// The text being read.
    pub closed spec fn text(&self) -> Seq<char> {
        self.command_string.cursored_text.text@
    }

    /// The next word, with whether it was quoted or escaped.
    pub fn next(&mut self) -> (r: Option<(bool, String)>)
        requires
            old(self).text().len() < usize::MAX,
        ensures
            final(self).text() == old(self).text(),
            final(self)@ == next_word_spec(old(self).text(), old(self)@).0,
            match r {
                Some(w) => next_word_spec(old(self).text(), old(self)@).1 == Some((w.0, w.1@)),
                None => next_word_spec(old(self).text(), old(self)@).1 is None,
            },
    {
        let text = &self.command_string.cursored_text.text;
        let len = text.len();
        if self.start >= len {
            return None;
        }
        let ghost t = text@;
        let ghost st0 = self@;
        let base = self.start;
        let mut end: usize = 0;
        while base + end < len
            invariant
                len == t.len(),
                t == self.text(),
                t == old(self).text(),
                st0 == old(self)@,
                base == st0.start,
                base < len < usize::MAX,
                self.start == base || (end >= 1 && self.start == base + 1),
                base + end <= len,
                scan(t, self@, base as int, end as int) == scan(t, st0, base as int, 0),
            decreases len - base - end,
        {
            let c = self.command_string.cursored_text.text[base + end];
            let ghost cur = self@;
            if self.escaped {
                self.was_escaped = true;
                crate::text::push_char(&mut self.sub_string, c);
                self.escaped = false;
                assert(self@ == (IterV { was_escaped: true, sub: cur.sub.push(c), escaped: false, ..cur }));
            } else if c == ' ' {
                if self.quoted == Quoted::NoQuote {
                    if end == 0 {
                        self.start = self.start + 1;
                    } else {
                        self.start = self.start + end + 1;
                        let mut s = String::new();
                        std::mem::swap(&mut s, &mut self.sub_string);
                        let w = self.was_escaped;
                        self.was_escaped = false;
                        return Some((w, s));
                    }
                } else {
                    crate::text::push_char(&mut self.sub_string, c);
                }
            } else if c == '"' || c == '\'' {
                let quote = if c == '"' {
                    Quoted::Double
                } else {
                    Quoted::Single
                };
                if self.quoted == quote {
                    self.start = self.start + end + 1;
                    self.quoted = Quoted::NoQuote;
                    let mut s = String::new();
                    std::mem::swap(&mut s, &mut self.sub_string);
                    return Some((true, s));
                } else if end == 0 {
                    self.quoted = quote;
                    self.start = self.start + 1;
                } else {
                    crate::text::push_char(&mut self.sub_string, c);
                }
            } else if c == '\\' {
                self.escaped = true;
            } else {
                crate::text::push_char(&mut self.sub_string, c);
            }
            end = end + 1;
        }
        if self.complete {
            None
        } else {
            self.complete = true;
            let mut s = String::new();
            std::mem::swap(&mut s, &mut self.sub_string);
            Some((self.was_escaped || self.quoted != Quoted::NoQuote, s))
        }
    }
}

} // verus!

verus! {

pub(crate) fn collect_words(it: &mut CommandStringIter) -> (r: Vec<(bool, String)>)
    requires
        old(it).text().len() < usize::MAX,
        old(it)@.start >= 0,
    ensures
        words_view(r@) == words_from(old(it).text(), old(it)@),
{
    let ghost t = it.text();
    let ghost st0 = it@;
    let mut out: Vec<(bool, String)> = Vec::new();
    loop
        invariant
            it.text() == t,
            t == old(it).text(),
            st0 == old(it)@,
            t.len() < usize::MAX,
            it@.start >= 0,
            words_view(out@) + words_from(t, it@) == words_from(t, st0),
        decreases scan_measure(t, it@),
    {
        let ghost before = it@;
        proof {
            lemma_next_word_progress(t, before);
        }
        match it.next() {
            Some(w) => {
                let ghost wv = (w.0, w.1@);
                let ghost prev = words_view(out@);
                out.push(w);
                assert(words_view(out@) =~= prev.push(wv));
                assert(words_from(t, before) == seq![wv] + words_from(t, it@));
                assert(prev + words_from(t, before) =~= words_view(out@) + words_from(t, it@));
            },
            None => {
                assert(words_from(t, before) =~= Seq::<(bool, Seq<char>)>::empty());
                assert(words_view(out@) + words_from(t, before) =~= words_view(out@));
                return out;
            },
        }
    }
}

fn contains_space(s: &String) -> (r: bool)
    ensures
        r == s@.contains(' '),
{
    let chars = chars_of(s.as_str());
    let mut i: usize = 0;
    while i < chars.len()
        invariant
            i <= chars@.len(),
            chars@ == s@,
            forall|j: int| 0 <= j < i ==> chars@[j] != ' ',
        decreases chars.len() - i,
    {
        if chars[i] == ' ' {
            assert(s@[i as int] == ' ');
            return true;
        }
        i = i + 1;
    }
    false
}

impl Default for CommandString {
    fn default() -> (r: CommandString)
        ensures
            r@ == (CommandV {
                text: text_of(0, None, Seq::empty()),
                completer: None,
                autofilled: None,
                open_end: false,
                keep_last: false,
            }),
    {
        CommandString {
            cursored_text: CursoredText { cursor: 0, selection: None, text: Vec::new() },
            auto_fill: None,
            autofilled: None,
            open_end: false,
            keep_last: false,
        }
    }
}

impl CommandString {
    /// Whether the state is consistent.
    pub closed spec fn wf(&self) -> bool {
        command_wf(self@)
    }

    /// The state is consistent exactly when the cursor and selection lie within the text and
    /// a completer's position lies within its candidates.
    pub proof fn lemma_wf(&self)
        ensures
            self.wf() <==> command_wf(self@),
    {
    }

    /// An empty command line.
    pub fn new() -> (r: CommandString)
        ensures
            r@ == (CommandV {
                text: text_of(0, None, Seq::empty()),
                completer: None,
                autofilled: None,
                open_end: true,
                keep_last: false,
            }),
            r.wf(),
    {
        CommandString {
            cursored_text: CursoredText { cursor: 0, selection: None, text: Vec::new() },
            auto_fill: None,
            autofilled: None,
            open_end: true,
            keep_last: false,
        }
    }

    /// The number of characters typed.
    pub fn text_len(&self) -> (r: usize)
        ensures
            r == self@.text.text.len(),
    {
        self.cursored_text.text.len()
    }

    /// Writes an offered completion into the text.
    fn write_back(&mut self)
        requires
            command_wf(old(self)@),
            old(self)@.autofilled is Some ==> readable(old(self)@),
        ensures
            final(self)@ == written_back(old(self)@),
            command_wf(final(self)@),
    {
        if self.autofilled.is_some() {
            let v = self.autofilled_values();
            let s = vals_to_string(&v);
            let text = chars_of(s.as_str());
            self.cursored_text = CursoredText { cursor: text.len(), selection: None, text };
            self.autofilled = None;
        }
    }

    /// Appends `c` to the end of the text (after writing in any offered completion), and
    /// drops the completer.
    pub fn push(&mut self, c: char)
        requires
            old(self).wf(),
            old(self)@.autofilled is Some ==> readable(old(self)@),
        ensures
            final(self).wf(),
            final(self)@ == (CommandV {
                text: append_spec(written_back(old(self)@).text, c),
                completer: None,
                ..written_back(old(self)@)
            }),
    {
        self.write_back();
        self.auto_fill = None;
        self.cursored_text.append(c)
    }

    /// Backspace (after writing in any offered completion); drops the completer and opens
    /// the end of the line.
    pub fn backspace(&mut self)
        requires
            old(self).wf(),
            old(self)@.autofilled is Some ==> readable(old(self)@),
        ensures
            final(self).wf(),
            final(self)@ == (CommandV {
                text: backspace_spec(written_back(old(self)@).text),
                completer: None,
                open_end: true,
                ..written_back(old(self)@)
            }),
    {
        self.write_back();
        self.auto_fill = None;
        self.open_end = true;
        self.cursored_text.backspace();
    }

    /// Performs backspace, as `backspace` does (after writing in any offered completion);
    /// drops the completer and opens the end of the line.
    pub fn del(&mut self)
        requires
            old(self).wf(),
            old(self)@.autofilled is Some ==> readable(old(self)@),
        ensures
            final(self).wf(),
            final(self)@ == (CommandV {
                text: backspace_spec(written_back(old(self)@).text),
                completer: None,
                open_end: true,
                ..written_back(old(self)@)
            }),
    {
        self.write_back();
        self.auto_fill = None;
        self.open_end = true;
        self.cursored_text.backspace();
    }

    pub fn key_up(&mut self)
        requires
            old(self).wf(),
        ensures
            final(self).wf(),
            final(self)@ == with_text(old(self)@, to_start_spec(old(self)@.text)),
    {
        self.cursored_text.key_up()
    }

    pub fn key_shift_up(&mut self)
        requires
            old(self).wf(),
        ensures
            final(self).wf(),
            final(self)@ == with_text(old(self)@, shift_up_spec(old(self)@.text)),
    {
        self.cursored_text.key_shift_up()
    }

    pub fn key_down(&mut self)
        requires
            old(self).wf(),
        ensures
            final(self).wf(),
            final(self)@ == with_text(old(self)@, to_end_spec(old(self)@.text)),
    {
        self.cursored_text.key_down()
    }

    pub fn key_shift_down(&mut self)
        requires
            old(self).wf(),
        ensures
            final(self).wf(),
            final(self)@ == with_text(old(self)@, shift_down_spec(old(self)@.text)),
    {
        self.cursored_text.key_shift_down()
    }

    pub fn key_left(&mut self)
        requires
            old(self).wf(),
        ensures
            final(self).wf(),
            final(self)@ == with_text(old(self)@, left_spec(old(self)@.text)),
    {
        self.cursored_text.key_left()
    }

    pub fn key_shift_left(&mut self)
        requires
            old(self).wf(),
        ensures
            final(self).wf(),
            final(self)@ == with_text(old(self)@, shift_left_spec(old(self)@.text)),
    {
        self.cursored_text.key_shift_left()
    }

    pub fn key_right(&mut self)
        requires
            old(self).wf(),
        ensures
            final(self).wf(),
            final(self)@ == with_text(old(self)@, right_spec(old(self)@.text)),
    {
        self.cursored_text.key_right()
    }

    pub fn key_shift_right(&mut self)
        requires
            old(self).wf(),
        ensures
            final(self).wf(),
            final(self)@ == with_text(old(self)@, shift_right_spec(old(self)@.text)),
    {
        self.cursored_text.key_shift_right()
    }

    /// Clears the text, the completer and any offered completion.
    pub fn clear(&mut self)
        ensures
            final(self).wf(),
            final(self)@ == (CommandV {
                text: clear_spec(old(self)@.text),
                completer: None,
                autofilled: None,
                ..old(self)@
            }),
    {
        self.auto_fill = None;
        self.autofilled = None;
        self.cursored_text.clear();
    }

    /// Whether nothing is typed and no completion is offered.
    pub fn is_empty(&self) -> (r: bool)
        ensures
            r == (self@.text.text.len() == 0 && self@.autofilled is None),
    {
        self.cursored_text.text.len() == 0 && self.autofilled.is_none()
    }

    /// Prepares completion: where no completer is set, returns the word one is needed for
    /// (and notes whether the last word is to be kept); the caller collects the candidates
    /// and sets the completer.
    pub fn refresh_autofill(&mut self) -> (r: Option<String>)
        requires
            old(self).wf(),
            readable(old(self)@),
        ensures
            final(self).wf(),
            match old(self)@.completer {
                Some(_) => r is None && final(self)@ == old(self)@,
                None => r matches Some(w) && w@ == completion_word(old(self)@).0
                    && final(self)@ == (CommandV {
                    keep_last: completion_word(old(self)@).1,
                    ..old(self)@
                }),
            },
    {
        if self.auto_fill.is_some() {
            return None;
        }
        let mut it = self.get_values();
        let mut values = collect_words(&mut it);
        let ghost w = words_of(self@.text.text);
        assert(words_view(values@) == w);
        let text = &self.cursored_text.text;
        let n = values.len();
        if n == 0 {
            return Some(String::new());
        }
        let last = values.pop().unwrap();
        assert((last.0, last.1@) == w.last());
        let lw = chars_of(last.1.as_str());
        let ends_in_space = text.len() > 0 && text[text.len() - 1] == ' ';
        if !last.0 && lw.len() > 0 && lw[0] == '-' && ends_in_space {
            self.keep_last = true;
            Some(String::new())
        } else {
            self.keep_last = false;
            Some(last.1)
        }
    }

    /// Sets the completer that `auto_fill` offers completions from.
    pub fn set_auto_fill(&mut self, completer: AutoCompleter)
        requires
            old(self).wf(),
            completer.wf(),
        ensures
            final(self).wf(),
            final(self)@ == (CommandV { completer: Some(completer@), ..old(self)@ }),
    {
        self.auto_fill = Some(completer);
    }

    /// Offers the completer's next completion for the last word (only directories where
    /// `dir`), unless text is selected.
    pub fn auto_fill(&mut self, dir: bool)
        requires
            old(self).wf(),
        ensures
            final(self).wf(),
            final(self)@ == auto_fill_spec(old(self)@, dir),
    {
        if !self.cursored_text.can_autocomplete() {
            return ;
        }
        self.open_end = false;
        match self.auto_fill.take() {
            Some(mut af) => {
                let path = af.next_word(dir);
                self.auto_fill = Some(af);
                match path {
                    Some(p) => {
                        self.autofilled = Some(p);
                    },
                    None => {},
                }
            },
            None => {},
        }
    }

    /// Selects the whole line.
    pub fn select_all(&mut self)
        requires
            old(self).wf(),
        ensures
            final(self).wf(),
            final(self)@ == with_text(old(self)@, select_all_spec(old(self)@.text)),
    {
        self.cursored_text.select_all()
    }

    /// Clears the selection, moving the cursor to the end.
    pub fn deselect(&mut self)
        requires
            old(self).wf(),
        ensures
            final(self).wf(),
            final(self)@ == with_text(old(self)@, to_end_spec(old(self)@.text)),
    {
        self.cursored_text.deselect();
    }

    /// The line split at the selection; without one, the line with any offered completion
    /// written in (and nothing after it), or the text split at the cursor.
    pub fn char_chunks(&self) -> (r: CharChunks<'_>)
        requires
            self.wf(),
            self@.autofilled is Some ==> readable(self@),
        ensures
            match r {
                CharChunks::Selected(a, b, c, d) => self@.text.selection matches Some((_, sd))
                    && sd == d && (a@, b@, c@) == chunks_spec(self@.text),
                CharChunks::Unselected(a, b) => self@.text.selection is None && (if self@.autofilled is Some {
                    a@ == join_words(autofilled_words(self@)) && b@ == Seq::<char>::empty()
                } else {
                    a@ == self@.text.text.take(self@.text.cursor) && b@ == self@.text.text.skip(
                        self@.text.cursor,
                    )
                }),
            },
    {
        let filled = self.autofilled.is_some();
        match chunks_of(&self.cursored_text, filled) {
            CharChunks::Selected(a, b, c, d) => CharChunks::Selected(a, b, c, d),
            CharChunks::Unselected(a, b) => {
                if filled {
                    let v = self.autofilled_values();
                    CharChunks::Unselected(vals_to_string(&v), String::new())
                } else {
                    CharChunks::Unselected(a, b)
                }
            },
        }
    }

    /// The selected characters, if any.
    pub fn selected(&self) -> (r: Option<&[char]>)
        requires
            self.wf(),
        ensures
            match r {
                Some(s) => self@.text.selection is Some && s@ == chunks_spec(self@.text).1,
                None => self@.text.selection is None,
            },
    {
        match chunks_of(&self.cursored_text, true) {
            CharChunks::Selected(_, inside, _, _) => Some(inside),
            CharChunks::Unselected(_, _) => None,
        }
    }

    /// Reads the words of the line.
    pub fn get_values(&self) -> (r: CommandStringIter<'_>)
        ensures
            r@ == scan_start(),
            r.text() == self@.text.text,
    {
        CommandStringIter {
            command_string: self,
            quoted: Quoted::NoQuote,
            start: 0,
            complete: false,
            escaped: false,
            was_escaped: false,
            sub_string: String::new(),
        }
    }

    /// The words of the line, with any offered completion in place of the last word (or
    /// after it, where the last word is kept); each with whether it needs escaping.
    pub fn autofilled_values(&self) -> (r: Vec<(bool, String)>)
        requires
            readable(self@),
        ensures
            words_view(r@) == autofilled_words(self@),
    {
        let mut it = self.get_values();
        let mut values = collect_words(&mut it);
        let ghost w = words_view(values@);
        match &self.autofilled {
            Some(s) => {
                if !self.keep_last && values.len() > 0 {
                    values.pop();
                    assert(words_view(values@) =~= w.drop_last());
                }
                let ghost before = words_view(values@);
                let sp = contains_space(s);
                values.push((sp, copy_str(s)));
                assert(words_view(values@) =~= before.push((s@.contains(' '), s@)));
            },
            None => {},
        }
        values
    }

    /// The line as displayed: with any offered completion written in (without its closing
    /// quote while the end is open), else the text typed.
    pub fn to_string(&self) -> (r: String)
        requires
            self@.autofilled is Some ==> readable(self@),
        ensures
            r@ == display_spec(self@),
    {
        if self.autofilled.is_some() {
            let v = self.autofilled_values();
            let s = vals_to_string(&v);
            let mut chars = chars_of(s.as_str());
            if self.open_end && chars.len() > 0 && chars[chars.len() - 1] == '"' {
                chars.pop();
            }
            string_from_chars(chars.as_slice())
        } else {
            string_from_chars(self.cursored_text.text.as_slice())
        }
    }
}

} // verus!

verus! {

/// Without a selection, backspace removes the character just typed and puts the cursor
/// back.
pub proof fn lemma_backspace_undoes_push(t: TextV, c: char)
    requires
        text_wf(t),
        t.selection is None,
    ensures
        backspace_spec(push_spec(t, c)) == t,
{
    let p = push_spec(t, c);
    assert(splice(p.text, t.cursor, t.cursor + 1, Seq::empty()) =~= t.text);
}

/// Without a selection and away from the start, shift-left then shift-right leaves the text
/// as it was.
pub proof fn lemma_shift_right_undoes_shift_left(t: TextV)
    requires
        text_wf(t),
        t.selection is None,
        t.cursor > 0,
    ensures
        shift_right_spec(shift_left_spec(t)) == t,
{
}

/// Selecting everything and deleting leaves an empty text.
pub proof fn lemma_select_all_del_empties(t: TextV)
    requires
        text_wf(t),
    ensures
        del_spec(select_all_spec(t)).text.len() == 0,
        del_spec(select_all_spec(t)).cursor == 0,
{
}

/// Every edit keeps the cursor and selection within the text.
pub proof fn lemma_edits_keep_wf(t: TextV, c: char)
    requires
        text_wf(t),
    ensures
        text_wf(push_spec(t, c)),
        text_wf(del_spec(t)),
        text_wf(backspace_spec(t)),
        text_wf(left_spec(t)),
        text_wf(right_spec(t)),
        text_wf(shift_left_spec(t)),
        text_wf(shift_right_spec(t)),
        text_wf(shift_up_spec(t)),
        text_wf(shift_down_spec(t)),
        text_wf(select_all_spec(t)),
        text_wf(to_end_spec(t)),
        text_wf(to_start_spec(t)),
{
}

} // verus!

verus! {

// ---------------------------------------------------------------------------
// Laws of the command line
// ---------------------------------------------------------------------------

/// An empty text has no words.
pub proof fn lemma_no_words_in_empty_text()
    ensures
        words_of(Seq::empty()) == Seq::<(bool, Seq<char>)>::empty(),
{
    assert(words_of(Seq::empty()) =~= Seq::<(bool, Seq<char>)>::empty());
}

/// A command line is empty exactly when it displays nothing and has no words, offered
/// completion included.
pub proof fn lemma_empty_command(c: CommandV)
    ensures
        (c.text.text.len() == 0 && c.autofilled is None) <==> (display_spec(c).len() == 0
            && autofilled_words(c).len() == 0),
{
    lemma_no_words_in_empty_text();
    if c.text.text.len() == 0 {
        assert(c.text.text =~= Seq::<char>::empty());
    }
}

/// The words with an offered completion: without one, the words typed; with one, the
/// words typed without the last (kept where a bare flag and a space ended the line) and then
/// the completion, marked as needing quotes where it has a space.
pub proof fn lemma_autofilled_words(c: CommandV)
    ensures
        c.autofilled is None ==> autofilled_words(c) == words_of(c.text.text),
        c.autofilled matches Some(s) ==> autofilled_words(c) == (if c.keep_last || words_of(
            c.text.text,
        ).len() == 0 {
            words_of(c.text.text)
        } else {
            words_of(c.text.text).drop_last()
        }).push((s.contains(' '), s)),
{
}

/// Where no text is selected and the completer offers a path, `auto_fill` puts that path
/// in place of the last word (after it, where the last word is kept), leaves the typed text
/// as it was, and closes the end of the line.
pub proof fn lemma_auto_fill_offers(c: CommandV, dir: bool, p: Seq<char>)
    requires
        c.text.selection is None,
        c.completer matches Some(a) && next_completion(a, dir).1 == Some(p),
    ensures
        auto_fill_spec(c, dir).text == c.text,
        auto_fill_spec(c, dir).autofilled == Some(p),
        !auto_fill_spec(c, dir).open_end,
        autofilled_words(auto_fill_spec(c, dir)) == (if c.keep_last || words_of(c.text.text).len()
            == 0 {
            words_of(c.text.text)
        } else {
            words_of(c.text.text).drop_last()
        }).push((p.contains(' '), p)),
{
}

} // verus!

verus! {

// ---------------------------------------------------------------------------
// Laws of deleting text
// ---------------------------------------------------------------------------

/// With text selected, backspace removes exactly the selected text, as delete does: the text
/// before the selection followed by the text after it remains, the cursor stands where the
/// selection began, and nothing is selected.
pub proof fn lemma_backspace_removes_selection(t: TextV)
    requires
        text_wf(t),
        t.selection is Some,
    ensures
        backspace_spec(t) == del_spec(t),
        backspace_spec(t).text == t.text.take(sel_lo(t)) + t.text.skip(sel_hi(t)),
        backspace_spec(t).text.len() == t.text.len() - (sel_hi(t) - sel_lo(t)),
        backspace_spec(t).cursor == sel_lo(t),
        backspace_spec(t).selection is None,
        text_wf(backspace_spec(t)),
{
}

/// Without a selection, backspace removes the one character before the cursor (nothing at
/// the start of the text), and delete the one after it (nothing at the end).
pub proof fn lemma_backspace_and_delete_one(t: TextV)
    requires
        text_wf(t),
        t.selection is None,
    ensures
        t.cursor > 0 ==> backspace_spec(t).text == t.text.take(t.cursor - 1) + t.text.skip(t.cursor)
            && backspace_spec(t).cursor == t.cursor - 1 && backspace_spec(t).text.len() == t.text.len() - 1,
        t.cursor == 0 ==> backspace_spec(t) == t,
        t.cursor < t.text.len() ==> del_spec(t).text == t.text.take(t.cursor) + t.text.skip(t.cursor + 1)
            && del_spec(t).cursor == t.cursor && del_spec(t).text.len() == t.text.len() - 1,
        t.cursor == t.text.len() ==> del_spec(t) == t,
{
}

} // verus!
