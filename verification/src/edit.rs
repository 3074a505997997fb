use vstd::prelude::*;

use crate::text::{chars_of, string_from_chars};

verus! {

/// One step of an edit recorded against a text cursor.
#[derive(Clone, Debug, PartialEq, Eq)]
pub enum Edit {
    /// Moves the cursor left by the given count.
    MoveLeft(usize),
    /// Moves the cursor right by the given count.
    MoveRight(usize),
    /// Deletes backwards: removes up to the given count of characters before the cursor
    /// (to delete forwards, move right first).
    Delete(usize),
    /// Inserts characters at the cursor, which stays before them.
    Insert(Vec<char>),
}

pub ghost enum EditStepV {
    MoveLeft(int),
    MoveRight(int),
    Delete(int),
    Insert(Seq<char>),
}

impl View for Edit {
    type V = EditStepV;

    open spec fn view(&self) -> EditStepV {
        match self {
            Edit::MoveLeft(i) => EditStepV::MoveLeft(*i as int),
            Edit::MoveRight(i) => EditStepV::MoveRight(*i as int),
            Edit::Delete(i) => EditStepV::Delete(*i as int),
            Edit::Insert(v) => EditStepV::Insert(v@),
        }
    }
}

/// Where the edits start: on an empty text, at the start of the text, or at its end.
#[derive(Copy, Clone, Debug, PartialEq, Eq, Structural)]
pub enum EditStart {
    DeleteAll,
    FromStart,
    FromEnd,
}

/// A recorded sequence of edits, to be applied to any number of values.
pub struct UserEdit {
    pub edits: Vec<Edit>,
    pub start: EditStart,
}

pub open spec fn steps_view(v: Seq<Edit>) -> Seq<EditStepV> {
    Seq::new(v.len(), |i: int| v[i]@)
}

/// The text and cursor the edits start from.
pub open spec fn start_state(start: EditStart, target: Seq<char>) -> (Seq<char>, int) {
    match start {
        EditStart::DeleteAll => (Seq::empty(), 0),
        EditStart::FromStart => (target, 0),
        EditStart::FromEnd => (target, target.len() as int),
    }
}

pub open spec fn min(a: int, b: int) -> int {
    if a <= b {
        a
    } else {
        b
    }
}

/// The edits `steps[k..]` applied to `chars` with the cursor at `ind`.
pub open spec fn apply_steps(steps: Seq<EditStepV>, k: int, chars: Seq<char>, ind: int) -> Seq<char>
    decreases steps.len() - k,
{
    if k >= steps.len() || k < 0 {
        chars
    } else {
        match steps[k] {
            EditStepV::MoveLeft(i) => apply_steps(
                steps,
                k + 1,
                chars,
                if ind >= i {
                    ind - i
                } else {
                    0
                },
            ),
            EditStepV::MoveRight(i) => apply_steps(steps, k + 1, chars, min(ind + i, chars.len() as int)),
            EditStepV::Delete(count) => {
                let at = if ind >= count {
                    ind - count
                } else {
                    0
                };
                apply_steps(steps, k + 1, chars.take(at) + chars.skip(ind), at)
            },
            EditStepV::Insert(new) => apply_steps(
                steps,
                k + 1,
                chars.take(ind) + new + chars.skip(ind),
                ind,
            ),
        }
    }
}

/// The text the edits make of `target`.
pub open spec fn apply_spec(steps: Seq<EditStepV>, start: EditStart, target: Seq<char>) -> Seq<char> {
    let s = start_state(start, target);
    apply_steps(steps, 0, s.0, s.1)
}

impl Default for UserEdit {
    fn default() -> (r: UserEdit)
        ensures
            r.edits@.len() == 0,
            r.start == EditStart::FromEnd,
    {
        UserEdit { edits: Vec::new(), start: EditStart::FromEnd }
    }
}

impl UserEdit {
    /// Applies the edits to `target`.
    pub fn apply(&self, target: &str) -> (r: String)
        ensures
            r@ == apply_spec(steps_view(self.edits@), self.start, target@),
    {
        let ghost steps = steps_view(self.edits@);
        let target_chars = chars_of(target);
        let (mut chars, mut ind) = match self.start {
            EditStart::DeleteAll => (Vec::new(), 0usize),
            EditStart::FromStart => (target_chars, 0usize),
            EditStart::FromEnd => {
                let n = target_chars.len();
                (target_chars, n)
            },
        };
        let mut k: usize = 0;
        while k < self.edits.len()
            invariant
                k <= self.edits@.len(),
                steps == steps_view(self.edits@),
                ind <= chars@.len(),
                apply_steps(steps, k as int, chars@, ind as int) == apply_spec(
                    steps,
                    self.start,
                    target@,
                ),
            decreases self.edits.len() - k,
        {
            assert(steps[k as int] == self.edits@[k as int]@);
            match &self.edits[k] {
                Edit::MoveLeft(i) => {
                    ind = if ind >= *i {
                        ind - *i
                    } else {
                        0
                    };
                },
                Edit::MoveRight(i) => {
                    let len = chars.len();
                    ind = if *i <= len - ind {
                        ind + *i
                    } else {
                        len
                    };
                },
                Edit::Delete(count) => {
                    let at = if ind >= *count {
                        ind - *count
                    } else {
                        0
                    };
                    remove_range(&mut chars, at, ind);
                    ind = at;
                },
                Edit::Insert(new_chars) => {
                    let ghost before = chars@;
                    insert_all(&mut chars, ind, new_chars);
                    assert(chars@ =~= before.take(ind as int) + new_chars@ + before.skip(
                        ind as int,
                    ));
                },
            }
            k = k + 1;
        }
        string_from_chars(chars.as_slice())
    }

    /// The SQL expression that makes the edited value, with its bound values. Only edits
    /// that start from an empty text can be written so: the expression is a single bound
    /// value, the edits applied to the empty text.
    pub fn sql(&self) -> (r: (String, Vec<String>))
        requires
            self.start == EditStart::DeleteAll,
        ensures
            r.0@ == seq!['?'],
            r.1@.len() == 1,
            r.1@[0]@ == apply_spec(steps_view(self.edits@), self.start, Seq::empty()),
    {
        let empty = string_from_chars(&[]);
        assert(empty@ =~= Seq::<char>::empty());
        let value = self.apply(empty.as_str());
        let mut binds: Vec<String> = Vec::new();
        binds.push(value);
        let q = string_from_chars(&['?']);
        assert((&['?'])@ =~= seq!['?']);
        (q, binds)
    }
}

/// `s` without the positions `lo .. hi`.
fn remove_range(s: &mut Vec<char>, lo: usize, hi: usize)
    requires
        lo <= hi <= old(s)@.len(),
    ensures
        final(s)@ == old(s)@.take(lo as int) + old(s)@.skip(hi as int),
{
    let mut out: Vec<char> = Vec::new();
    let mut i: usize = 0;
    while i < s.len()
        invariant
            i <= s@.len(),
            lo <= hi <= s@.len(),
            out@ == (if i <= lo {
                s@.take(i as int)
            } else if i <= hi {
                s@.take(lo as int)
            } else {
                s@.take(lo as int) + s@.subrange(hi as int, i as int)
            }),
        decreases s.len() - i,
    {
        if i < lo || i >= hi {
            out.push(s[i]);
        }
        proof {
            if i + 1 <= lo {
                assert(s@.take(i + 1) =~= s@.take(i as int).push(s@[i as int]));
            } else if i < hi {
            } else if i == hi {
                assert(s@.subrange(hi as int, i + 1) =~= seq![s@[i as int]]);
            } else {
                assert(s@.subrange(hi as int, i + 1) =~= s@.subrange(hi as int, i as int).push(
                    s@[i as int],
                ));
            }
        }
        i = i + 1;
    }
    proof {
        if s@.len() <= lo {
            assert(s@.take(s@.len() as int) =~= s@.take(lo as int));
        }
        if hi == s@.len() && lo < hi {
            assert(s@.subrange(hi as int, hi as int) =~= Seq::<char>::empty());
        }
        assert(s@.skip(hi as int) =~= s@.subrange(hi as int, s@.len() as int));
    }
    *s = out;
    assert(s@ =~= old(s)@.take(lo as int) + old(s)@.skip(hi as int));
}

/// Inserts `new` into `s` at position `at`.
fn insert_all(s: &mut Vec<char>, at: usize, new: &Vec<char>)
    requires
        at <= old(s)@.len(),
    ensures
        final(s)@ == old(s)@.take(at as int) + new@ + old(s)@.skip(at as int),
{
    let mut out: Vec<char> = Vec::new();
    let mut i: usize = 0;
    while i < at
        invariant
            i <= at <= s@.len(),
            out@ == s@.take(i as int),
        decreases at - i,
    {
        out.push(s[i]);
        assert(s@.take(i + 1) =~= s@.take(i as int).push(s@[i as int]));
        i = i + 1;
    }
    let mut j: usize = 0;
    while j < new.len()
        invariant
            j <= new@.len(),
            at <= s@.len(),
            out@ == s@.take(at as int) + new@.take(j as int),
        decreases new.len() - j,
    {
        out.push(new[j]);
        assert(new@.take(j + 1) =~= new@.take(j as int).push(new@[j as int]));
        j = j + 1;
    }
    let mut i = at;
    while i < s.len()
        invariant
            at <= i <= s@.len(),
            out@ == s@.take(at as int) + new@ + s@.subrange(at as int, i as int),
        decreases s.len() - i,
    {
        out.push(s[i]);
        assert(s@.subrange(at as int, i + 1) =~= s@.subrange(at as int, i as int).push(
            s@[i as int],
        ));
        i = i + 1;
    }
    assert(new@.take(new@.len() as int) =~= new@);
    assert(s@.subrange(at as int, s@.len() as int) =~= s@.skip(at as int));
    *s = out;
}

} // verus!
