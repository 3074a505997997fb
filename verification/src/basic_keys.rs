//! What the compact front end does with a terminal event: in the book list, the
//! command line's changes; in the field editor, the edit's. What is left to the caller is
//! returned.
use vstd::prelude::*;

use crate::basic_input::{
    CommandString, EditState, LineV, completion_target, drop_last_char, filled_back, filled_words,
    line_words, visible_spec,
};
use crate::key_input::{ColumnTask, ColumnTaskV, InputEvent, Key, ListMove, opt_text};
use crate::parser::strs;
use crate::user_input::words_view;

verus! {

// ---------------------------------------------------------------------------
// The book list
// ---------------------------------------------------------------------------

/// The words a command line runs: its words with any offered completion in place.
pub open spec fn filled_args(c: LineV) -> Seq<Seq<char>> {
    Seq::new(filled_words(c).len(), |i: int| filled_words(c)[i].1)
}

/// The book list's command line after an event, and the task left to the caller.
/// `over_details` says whether the pointer is over the selected book's details;
/// `inverted` and `scroll` how the wheel scrolls.
pub open spec fn basic_column_spec(
    c: LineV,
    ev: InputEvent,
    book_selected: bool,
    over_details: bool,
    inverted: bool,
    scroll: usize,
) -> (LineV, ColumnTaskV) {
    match ev {
        InputEvent::Resize => (c, ColumnTaskV::Update),
        InputEvent::ScrollDown(_, _) | InputEvent::ScrollUp(_, _) => {
            let up = (ev is ScrollDown) == inverted;
            if over_details {
                (c, ColumnTaskV::ScrollDetails(up, scroll))
            } else if up {
                (c, ColumnTaskV::Move(ListMove::ScrollUp(scroll)))
            } else {
                (c, ColumnTaskV::Move(ListMove::ScrollDown(scroll)))
            }
        },
        InputEvent::OtherMouse => (c, ColumnTaskV::Nothing),
        InputEvent::Key(k) => match k.key {
            Key::F(2) => (c, if book_selected {
                ColumnTaskV::ToEdit
            } else {
                ColumnTaskV::Update
            }),
            Key::Backspace => (
                LineV {
                    buf: drop_last_char(filled_back(c).buf),
                    completer: None,
                    open_end: true,
                    ..filled_back(c)
                },
                ColumnTaskV::Update,
            ),
            Key::Char(ch) => (
                LineV { buf: filled_back(c).buf.push(ch), completer: None, ..filled_back(c) },
                ColumnTaskV::Update,
            ),
            Key::Enter => (
                LineV { buf: Seq::empty(), completer: None, autofilled: None, ..c },
                ColumnTaskV::Run(filled_args(c)),
            ),
            Key::Tab | Key::BackTab => match c.completer {
                Some(_) => (c, ColumnTaskV::Complete(None)),
                None => (
                    LineV { keep_last: completion_target(c).1, ..c },
                    ColumnTaskV::Complete(Some(completion_target(c).0)),
                ),
            },
            Key::Esc => (
                LineV { buf: Seq::empty(), completer: None, autofilled: None, ..c },
                ColumnTaskV::Escape,
            ),
            Key::Delete => (c, if c.buf.len() == 0 {
                ColumnTaskV::DeleteSelected
            } else {
                ColumnTaskV::Update
            }),
            Key::Up => (c, ColumnTaskV::Move(ListMove::Up)),
            Key::Down => (c, ColumnTaskV::Move(ListMove::Down)),
            Key::PageDown => (c, ColumnTaskV::Move(ListMove::PageDown)),
            Key::PageUp => (c, ColumnTaskV::Move(ListMove::PageUp)),
            Key::Home => (c, ColumnTaskV::Move(ListMove::Home)),
            Key::End => (c, ColumnTaskV::Move(ListMove::End)),
            _ => (c, ColumnTaskV::Nothing),
        },
    }
}

fn filled_args_of(c: &CommandString) -> (r: Vec<String>)
    ensures
        strs(r@) == filled_args(c@),
{
    let v = c.get_values_autofilled();
    let mut args: Vec<String> = Vec::new();
    let mut i: usize = 0;
    while i < v.len()
        invariant
            i <= v@.len(),
            words_view(v@) == filled_words(c@),
            strs(args@) =~= filled_args(c@).take(i as int),
        decreases v.len() - i,
    {
        let ghost prev = strs(args@);
        args.push(crate::text::copy_string(&v[i].1));
        assert(strs(args@) =~= prev.push(v@[i as int].1@));
        i = i + 1;
    }
    assert(filled_args(c@).take(v@.len() as int) =~= filled_args(c@));
    args
}

/// Handles an event in the book list's command line, returning what is left to do.
pub fn basic_column_event(
    c: &mut CommandString,
    ev: InputEvent,
    book_selected: bool,
    over_details: bool,
    inverted: bool,
    scroll: usize,
) -> (r: ColumnTask)
    requires
        old(c).wf(),
    ensures
        final(c).wf(),
        (final(c)@, r@) == basic_column_spec(old(c)@, ev, book_selected, over_details, inverted, scroll),
{
    match ev {
        InputEvent::Resize => ColumnTask::Update,
        InputEvent::ScrollDown(_, _) | InputEvent::ScrollUp(_, _) => {
            let down = match ev {
                InputEvent::ScrollDown(_, _) => true,
                _ => false,
            };
            let up = down == inverted;
            if over_details {
                ColumnTask::ScrollDetails(up, scroll)
            } else if up {
                ColumnTask::Move(ListMove::ScrollUp(scroll))
            } else {
                ColumnTask::Move(ListMove::ScrollDown(scroll))
            }
        },
        InputEvent::OtherMouse => ColumnTask::Nothing,
        InputEvent::Key(k) => match k.key {
            Key::F(2) => if book_selected {
                ColumnTask::ToEdit
            } else {
                ColumnTask::Update
            },
            Key::Backspace => {
                c.pop();
                ColumnTask::Update
            },
            Key::Char(ch) => {
                c.push(ch);
                ColumnTask::Update
            },
            Key::Enter => {
                let args = filled_args_of(c);
                c.clear();
                ColumnTask::Run(args)
            },
            Key::Tab | Key::BackTab => {
                let w = c.refresh_autofill();
                ColumnTask::Complete(w)
            },
            Key::Esc => {
                c.clear();
                ColumnTask::Escape
            },
            Key::Delete => if c.is_empty() {
                ColumnTask::DeleteSelected
            } else {
                ColumnTask::Update
            },
            Key::Up => ColumnTask::Move(ListMove::Up),
            Key::Down => ColumnTask::Move(ListMove::Down),
            Key::PageDown => ColumnTask::Move(ListMove::PageDown),
            Key::PageUp => ColumnTask::Move(ListMove::PageUp),
            Key::Home => ColumnTask::Move(ListMove::Home),
            Key::End => ColumnTask::Move(ListMove::End),
            _ => ColumnTask::Nothing,
        },
    }
}

/// Whether an `!a` command line asks for completion, and of directories: the first word
/// is `!a`; directories where the second is `-d`.
pub open spec fn add_completion(w: Seq<(bool, Seq<char>)>) -> Option<bool> {
    if w.len() > 0 && w[0].1 == "!a"@ {
        Some(w.len() > 1 && w[1].1 == "-d"@)
    } else {
        None
    }
}

fn word_is(s: &String, lit: &str) -> (r: bool)
    ensures
        r == (s@ == lit@),
{
    let a = crate::text::chars_of(s.as_str());
    let b = crate::text::chars_of(lit);
    crate::text::eq_chars(a.as_slice(), b.as_slice())
}

/// Offers a completion after the completer was set, for an `!a` command line.
pub fn basic_complete(c: &mut CommandString)
    requires
        old(c).wf(),
    ensures
        final(c).wf(),
        match add_completion(line_words(old(c)@.buf)) {
            Some(dir) => match old(c)@.completer {
                Some(a) => {
                    let n = crate::user_input::next_completion(a, dir);
                    final(c)@ == (LineV {
                        open_end: false,
                        completer: Some(n.0),
                        autofilled: match n.1 {
                            Some(p) => Some(p),
                            None => old(c)@.autofilled,
                        },
                        ..old(c)@
                    })
                },
                None => final(c)@ == (LineV { open_end: false, ..old(c)@ }),
            },
            None => final(c)@ == old(c)@,
        },
{
    let vals = c.get_values();
    if vals.len() > 0 && word_is(&vals[0].1, "!a") {
        let dir = vals.len() > 1 && word_is(&vals[1].1, "-d");
        c.auto_fill(dir);
    }
}

// ---------------------------------------------------------------------------
// The field editor
// ---------------------------------------------------------------------------

/// What is left to the caller after an event in the field editor of the column at
/// `column`.
pub enum BasicEditTask {
    /// Nothing to redraw.
    Nothing,
    /// Redraw.
    Update,
    /// Show the text in the field, then redraw.
    Show(String),
    /// Write the text to the field, then return to the book list.
    WriteAndClose(String),
    /// Show the text the field had again, then return to the book list.
    RestoreAndClose(String),
    /// Write the text (where given) to the field, then edit the field in the given column
    /// from its value (`reset_orig`) and show it.
    Reload(Option<String>, usize),
}

pub enum BasicEditTaskV {
    Nothing,
    Update,
    Show(Seq<char>),
    WriteAndClose(Seq<char>),
    RestoreAndClose(Seq<char>),
    Reload(Option<Seq<char>>, usize),
}

impl View for BasicEditTask {
    type V = BasicEditTaskV;

    open spec fn view(&self) -> BasicEditTaskV {
        match self {
            BasicEditTask::Nothing => BasicEditTaskV::Nothing,
            BasicEditTask::Update => BasicEditTaskV::Update,
            BasicEditTask::Show(s) => BasicEditTaskV::Show(s@),
            BasicEditTask::WriteAndClose(s) => BasicEditTaskV::WriteAndClose(s@),
            BasicEditTask::RestoreAndClose(s) => BasicEditTaskV::RestoreAndClose(s@),
            BasicEditTask::Reload(s, c) => BasicEditTaskV::Reload(opt_text(*s), *c),
        }
    }
}

/// An edit's state: whether it started, the value the field had and the new one.
pub type BasicEditV = (bool, Seq<char>, Seq<char>);

pub open spec fn basic_edit_view(e: &EditState) -> BasicEditV {
    (e.started_edit, e.orig_value@, e.new_value@)
}

pub open spec fn shown(e: BasicEditV) -> Seq<char> {
    if e.0 {
        e.2
    } else {
        e.1
    }
}

/// The edit after an event, and the task left to the caller. The edit is of the field
/// in column `column` of `n` columns.
pub open spec fn basic_edit_spec(e: BasicEditV, ev: InputEvent, column: usize, n: usize) -> (
    BasicEditV,
    BasicEditTaskV,
) {
    match ev {
        InputEvent::Resize => (e, BasicEditTaskV::Update),
        InputEvent::Key(k) => match k.key {
            Key::Backspace => {
                let e2 = (true, e.1, if e.0 {
                    drop_last_char(e.2)
                } else {
                    Seq::empty()
                });
                (e2, BasicEditTaskV::Show(shown(e2)))
            },
            Key::Char(c) => {
                let e2 = (true, e.1, (if e.0 {
                    e.2
                } else {
                    Seq::empty()
                }).push(c));
                (e2, BasicEditTaskV::Show(shown(e2)))
            },
            Key::Enter => (e, if e.0 {
                BasicEditTaskV::WriteAndClose(e.2)
            } else {
                BasicEditTaskV::RestoreAndClose(e.1)
            }),
            Key::Esc => (e, BasicEditTaskV::RestoreAndClose(e.1)),
            Key::Delete => (e, BasicEditTaskV::Show(shown(e))),
            Key::Right => {
                let e2 = if e.0 {
                    e
                } else {
                    (true, e.1, e.1)
                };
                (e2, BasicEditTaskV::Show(shown(e2)))
            },
            Key::Down => if column + 1 < n {
                (e, BasicEditTaskV::Reload(if e.0 {
                    Some(e.2)
                } else {
                    None
                }, (column + 1) as usize))
            } else {
                (e, BasicEditTaskV::Reload(None, column))
            },
            Key::Up => if column > 0 {
                (e, BasicEditTaskV::Reload(if e.0 {
                    Some(e.2)
                } else {
                    None
                }, (column - 1) as usize))
            } else {
                (e, BasicEditTaskV::Reload(None, column))
            },
            _ => (e, BasicEditTaskV::Nothing),
        },
        _ => (e, BasicEditTaskV::Nothing),
    }
}

fn show(e: &EditState) -> (r: BasicEditTask)
    ensures
        r@ == BasicEditTaskV::Show(visible_spec(e)),
{
    BasicEditTask::Show(e.visible().to_string())
}

/// Handles an event in the field editor, returning what is left to do.
pub fn basic_edit_event(e: &mut EditState, ev: InputEvent, column: usize, num_cols: usize) -> (r: BasicEditTask)
    ensures
        (basic_edit_view(final(e)), r@) == basic_edit_spec(basic_edit_view(old(e)), ev, column, num_cols),
        final(e).selected == old(e).selected,
{
    match ev {
        InputEvent::Resize => BasicEditTask::Update,
        InputEvent::Key(k) => match k.key {
            Key::Backspace => {
                e.del();
                show(e)
            },
            Key::Char(c) => {
                e.push(c);
                show(e)
            },
            Key::Enter => if e.started_edit {
                BasicEditTask::WriteAndClose(e.new_value.clone())
            } else {
                BasicEditTask::RestoreAndClose(e.orig_value.clone())
            },
            Key::Esc => BasicEditTask::RestoreAndClose(e.orig_value.clone()),
            Key::Delete => show(e),
            Key::Right => {
                e.edit_orig();
                show(e)
            },
            Key::Down => if column < usize::MAX && column + 1 < num_cols {
                BasicEditTask::Reload(
                    if e.started_edit {
                        Some(e.new_value.clone())
                    } else {
                        None
                    },
                    column + 1,
                )
            } else {
                BasicEditTask::Reload(None, column)
            },
            Key::Up => if column > 0 {
                BasicEditTask::Reload(
                    if e.started_edit {
                        Some(e.new_value.clone())
                    } else {
                        None
                    },
                    column - 1,
                )
            } else {
                BasicEditTask::Reload(None, column)
            },
            _ => BasicEditTask::Nothing,
        },
        _ => BasicEditTask::Nothing,
    }
}

} // verus!
