//! What the terminal interface does with a key or mouse event: the changes to the text
//! being typed, and the task left to the caller (the book list, the database, the
//! clipboard, the screen).
use vstd::prelude::*;

use crate::scrollable_text::{ScrollableText, ScrollV, last_window, scrolled_down, scrolled_up};
use crate::parser::{Command, CommandV as ParsedV, SourceV, parse_args, parse_args_spec, strs};
use crate::user_input::{
    CommandString, CommandV, display_spec, readable, completion_word, with_text, written_back,
    autofilled_words, words_of, auto_fill_spec, EditState, EditV, chunks_spec, clear_spec, del_spec, edit_base, edit_started, push_spec, append_spec,
    select_all_spec, shift_down_spec, shift_left_spec, shift_right_spec, shift_up_spec, left_spec,
    right_spec, to_end_spec, to_start_spec, backspace_spec,
};

verus! {

// ---------------------------------------------------------------------------
// Events
// ---------------------------------------------------------------------------

/// A key of the keyboard.
#[derive(Copy, Clone, Debug, PartialEq, Eq, Structural)]
pub enum Key {
    Char(char),
    F(u8),
    Backspace,
    Enter,
    Left,
    Right,
    Up,
    Down,
    Home,
    End,
    PageUp,
    PageDown,
    Tab,
    BackTab,
    Delete,
    Esc,
    Other,
}

/// A key with the modifiers held.
#[derive(Copy, Clone, Debug, PartialEq, Eq, Structural)]
pub struct KeyPress {
    pub key: Key,
    pub shift: bool,
    pub control: bool,
    pub alt: bool,
}

/// Whether Control alone is held.
pub open spec fn control_only(k: KeyPress) -> bool {
    k.control && !k.shift && !k.alt
}

/// An event of the terminal.
#[derive(Copy, Clone, Debug, PartialEq, Eq, Structural)]
pub enum InputEvent {
    Key(KeyPress),
    Resize,
    /// The wheel turned down over column and row.
    ScrollDown(u16, u16),
    /// The wheel turned up over column and row.
    ScrollUp(u16, u16),
    OtherMouse,
}

/// What a key does whatever view is shown: Control-Q quits, Control-S saves; other
/// events go to the view.
#[derive(Copy, Clone, Debug, PartialEq, Eq, Structural)]
pub enum GlobalKey {
    Quit,
    Save,
    ToView,
}

pub open spec fn global_key_spec(ev: InputEvent) -> GlobalKey {
    match ev {
        InputEvent::Key(k) => if control_only(k) && k.key == Key::Char('q') {
            GlobalKey::Quit
        } else if control_only(k) && k.key == Key::Char('s') {
            GlobalKey::Save
        } else {
            GlobalKey::ToView
        },
        _ => GlobalKey::ToView,
    }
}

/// What an event does before any view sees it.
pub fn global_key(ev: InputEvent) -> (r: GlobalKey)
    ensures
        r == global_key_spec(ev),
{
    match ev {
        InputEvent::Key(k) => {
            let control = k.control && !k.shift && !k.alt;
            if control && k.key == Key::Char('q') {
                GlobalKey::Quit
            } else if control && k.key == Key::Char('s') {
                GlobalKey::Save
            } else {
                GlobalKey::ToView
            }
        },
        _ => GlobalKey::ToView,
    }
}

// ---------------------------------------------------------------------------
// Editing a field of a book
// ---------------------------------------------------------------------------

/// The editor of the selected book's field in the selected column; `focused` while keys
/// move within the text rather than between fields.
pub struct EditWidget {
    pub edit: EditState,
    pub focused: bool,
}

/// What is left to the caller after an event in the field editor. A `save` is the value
/// to write to the field, where editing has started (writing an immutable column is
/// refused and the value dropped).
pub enum EditTask {
    /// Nothing to redraw.
    Nothing,
    /// Redraw.
    Update,
    /// Return to the book list.
    ToColumns,
    /// Put the text on the clipboard, then redraw.
    Copy(String),
    /// Type the text of the clipboard into the field, then redraw.
    Paste,
    /// Save, then return to the book list.
    SaveAndClose(Option<String>),
    /// Save, then edit the field in the given column (where given), then redraw.
    SaveAndMoveColumn(Option<String>, Option<usize>),
    /// Save, then move the book selection down (or up); where it moved, edit the field of
    /// the newly selected book; then redraw.
    SaveAndMoveRow(Option<String>, bool),
}

pub enum EditTaskV {
    Nothing,
    Update,
    ToColumns,
    Copy(Seq<char>),
    Paste,
    SaveAndClose(Option<Seq<char>>),
    SaveAndMoveColumn(Option<Seq<char>>, Option<usize>),
    SaveAndMoveRow(Option<Seq<char>>, bool),
}

pub open spec fn opt_text(o: Option<String>) -> Option<Seq<char>> {
    match o {
        Some(s) => Some(s@),
        None => None,
    }
}

impl View for EditTask {
    type V = EditTaskV;

    open spec fn view(&self) -> EditTaskV {
        match self {
            EditTask::Nothing => EditTaskV::Nothing,
            EditTask::Update => EditTaskV::Update,
            EditTask::ToColumns => EditTaskV::ToColumns,
            EditTask::Copy(s) => EditTaskV::Copy(s@),
            EditTask::Paste => EditTaskV::Paste,
            EditTask::SaveAndClose(v) => EditTaskV::SaveAndClose(opt_text(*v)),
            EditTask::SaveAndMoveColumn(v, c) => EditTaskV::SaveAndMoveColumn(opt_text(*v), *c),
            EditTask::SaveAndMoveRow(v, d) => EditTaskV::SaveAndMoveRow(opt_text(*v), *d),
        }
    }
}

/// The state of the field editor: the edit and whether it is focused.
pub type EditorV = (EditV, bool);

/// Saving: the value to write, where editing has started, which also leaves the focus.
pub open spec fn saved(w: EditorV) -> (EditorV, Option<Seq<char>>) {
    if w.0.started_edit {
        ((w.0, false), Some(w.0.value.text))
    } else {
        (w, None)
    }
}

/// The column before `c`, if any.
pub open spec fn column_before(c: usize) -> Option<usize> {
    if c > 0 {
        Some((c - 1) as usize)
    } else {
        None
    }
}

/// The column after `c`, if any among `n`.
pub open spec fn column_after(c: usize, n: usize) -> Option<usize> {
    if c + 1 < n {
        Some((c + 1) as usize)
    } else {
        None
    }
}

/// The text that cutting or copying takes: the selection, else the whole value (nothing
/// where it is empty).
pub open spec fn copied(e: EditV) -> Option<Seq<char>> {
    if e.value.selection is Some {
        Some(chunks_spec(e.value).1)
    } else if e.value.text.len() > 0 {
        Some(e.value.text)
    } else {
        None
    }
}

pub open spec fn copy_task(e: EditV) -> EditTaskV {
    match copied(e) {
        Some(t) => EditTaskV::Copy(t),
        None => EditTaskV::Update,
    }
}

/// The editor after a key held with Control alone. `clipboard` says whether the
/// clipboard can be used.
pub open spec fn edit_control_spec(w: EditorV, c: char, clipboard: bool) -> (EditorV, EditTaskV) {
    let e = w.0;
    if c == 'v' && clipboard {
        (w, EditTaskV::Paste)
    } else if c == 'c' && clipboard {
        (w, copy_task(e))
    } else if c == 'x' && clipboard {
        if e.value.selection is Some {
            (
                ((if e.started_edit {
                    edit_started(e, del_spec(e.value))
                } else {
                    edit_started(e, clear_spec(e.value))
                }), w.1),
                copy_task(e),
            )
        } else {
            ((edit_started(e, clear_spec(e.value)), w.1), copy_task(e))
        }
    } else if c == 'd' {
        if w.1 {
            ((edit_started(e, to_end_spec(e.value)), false), EditTaskV::Update)
        } else {
            (w, EditTaskV::ToColumns)
        }
    } else if c == 'a' {
        ((edit_started(e, select_all_spec(e.value)), w.1), EditTaskV::Update)
    } else {
        ((edit_started(e, push_spec(edit_base(e), c)), w.1), EditTaskV::Update)
    }
}

/// The editor after a key while focused (moving within the text), or the save and move
/// that the key asks for while not.
pub open spec fn edit_move_spec(w: EditorV, k: KeyPress, column: usize, n: usize) -> (EditorV, EditTaskV) {
    let e = w.0;
    let s = saved(w);
    if w.1 {
        let t = match k.key {
            Key::Down => if k.shift {
                shift_down_spec(e.value)
            } else {
                to_end_spec(e.value)
            },
            Key::Up => if k.shift {
                shift_up_spec(e.value)
            } else {
                to_start_spec(e.value)
            },
            Key::Left => if k.shift {
                shift_left_spec(e.value)
            } else {
                left_spec(e.value)
            },
            _ => if k.shift {
                shift_right_spec(e.value)
            } else {
                right_spec(e.value)
            },
        };
        ((edit_started(e, t), true), EditTaskV::Update)
    } else {
        match k.key {
            Key::Down => (s.0, EditTaskV::SaveAndMoveRow(s.1, true)),
            Key::Up => (s.0, EditTaskV::SaveAndMoveRow(s.1, false)),
            Key::Left => (s.0, EditTaskV::SaveAndMoveColumn(s.1, column_before(column))),
            _ => (s.0, EditTaskV::SaveAndMoveColumn(s.1, column_after(column, n))),
        }
    }
}

/// The field editor after an event, and the task left to the caller. The editor edits
/// the field in column `column` of `n` columns.
pub open spec fn edit_event_spec(w: EditorV, ev: InputEvent, clipboard: bool, column: usize, n: usize) -> (
    EditorV,
    EditTaskV,
) {
    let e = w.0;
    match ev {
        InputEvent::Resize => (w, EditTaskV::Update),
        InputEvent::Key(k) => match k.key {
            Key::F(2) => ((e, true), EditTaskV::Update),
            Key::Char(c) => if control_only(k) {
                edit_control_spec(w, c, clipboard)
            } else {
                ((edit_started(e, push_spec(edit_base(e), c)), w.1), EditTaskV::Update)
            },
            Key::Tab => {
                let s = saved(w);
                (s.0, EditTaskV::SaveAndMoveColumn(s.1, column_after(column, n)))
            },
            Key::BackTab => {
                let s = saved(w);
                (s.0, EditTaskV::SaveAndMoveColumn(s.1, column_before(column)))
            },
            Key::Enter => if !w.1 {
                ((e, true), EditTaskV::Update)
            } else {
                let s = saved(w);
                (s.0, EditTaskV::SaveAndClose(s.1))
            },
            Key::Esc => (w, EditTaskV::ToColumns),
            Key::Backspace => (
                (
                    if e.started_edit {
                        edit_started(e, backspace_spec(e.value))
                    } else {
                        edit_started(e, clear_spec(e.value))
                    },
                    w.1,
                ),
                EditTaskV::Update,
            ),
            Key::Delete => (
                (
                    if e.started_edit {
                        edit_started(e, del_spec(e.value))
                    } else {
                        edit_started(e, clear_spec(e.value))
                    },
                    w.1,
                ),
                EditTaskV::Update,
            ),
            Key::Down | Key::Up | Key::Left | Key::Right => edit_move_spec(w, k, column, n),
            _ => (w, EditTaskV::Nothing),
        },
        _ => (w, EditTaskV::Nothing),
    }
}

fn copy_of(edit: &EditState) -> (r: EditTask)
    requires
        edit.wf(),
    ensures
        r@ == copy_task(edit@),
{
    match edit.selected() {
        Some(text) => EditTask::Copy(crate::text::string_from_chars(text)),
        None => {
            let s = edit.value_to_string();
            if s.unicode_len() > 0 {
                EditTask::Copy(s)
            } else {
                EditTask::Update
            }
        },
    }
}

impl EditWidget {
    /// Whether the edit's cursor and selection lie within its text.
    pub open spec fn wf(&self) -> bool {
        self.edit.wf()
    }

    /// Saves the edit: the value to write, where editing has started (the focus is then
    /// left).
    fn save(&mut self) -> (r: Option<String>)
        ensures
            final(self).wf() == old(self).wf(),
            ((final(self).edit@, final(self).focused), opt_text(r)) == saved(
                (old(self).edit@, old(self).focused),
            ),
    {
        if self.edit.is_started() {
            self.focused = false;
            Some(self.edit.value_to_string())
        } else {
            None
        }
    }

    /// Handles an event in the field editor, returning what is left to do.
    pub fn handle_event(&mut self, ev: InputEvent, clipboard: bool, column: usize, num_cols: usize) -> (r: EditTask)
        requires
            old(self).wf(),
        ensures
            final(self).wf(),
            ((final(self).edit@, final(self).focused), r@) == edit_event_spec(
                (old(self).edit@, old(self).focused),
                ev,
                clipboard,
                column,
                num_cols,
            ),
    {
        match ev {
            InputEvent::Resize => EditTask::Update,
            InputEvent::Key(k) => match k.key {
                Key::F(2) => {
                    self.focused = true;
                    EditTask::Update
                },
                Key::Char(c) => {
                    if k.control && !k.shift && !k.alt {
                        if c == 'v' && clipboard {
                            EditTask::Paste
                        } else if c == 'c' && clipboard {
                            copy_of(&self.edit)
                        } else if c == 'x' && clipboard {
                            let t = copy_of(&self.edit);
                            if self.edit.selected().is_some() {
                                self.edit.del();
                            } else {
                                self.edit.clear();
                            }
                            t
                        } else if c == 'd' {
                            if self.focused {
                                self.edit.deselect();
                                self.focused = false;
                                EditTask::Update
                            } else {
                                EditTask::ToColumns
                            }
                        } else if c == 'a' {
                            self.edit.select_all();
                            EditTask::Update
                        } else {
                            self.edit.push(c);
                            EditTask::Update
                        }
                    } else {
                        self.edit.push(c);
                        EditTask::Update
                    }
                },
                Key::Tab => {
                    let v = self.save();
                    EditTask::SaveAndMoveColumn(
                        v,
                        if column < usize::MAX && column + 1 < num_cols {
                            Some(column + 1)
                        } else {
                            None
                        },
                    )
                },
                Key::BackTab => {
                    let v = self.save();
                    EditTask::SaveAndMoveColumn(
                        v,
                        if column > 0 {
                            Some(column - 1)
                        } else {
                            None
                        },
                    )
                },
                Key::Enter => {
                    if !self.focused {
                        self.focused = true;
                        EditTask::Update
                    } else {
                        let v = self.save();
                        EditTask::SaveAndClose(v)
                    }
                },
                Key::Esc => EditTask::ToColumns,
                Key::Backspace => {
                    self.edit.backspace();
                    EditTask::Update
                },
                Key::Delete => {
                    self.edit.del();
                    EditTask::Update
                },
                Key::Down | Key::Up | Key::Left | Key::Right => {
                    if self.focused {
                        match k.key {
                            Key::Down => if k.shift {
                                self.edit.key_shift_down()
                            } else {
                                self.edit.key_down()
                            },
                            Key::Up => if k.shift {
                                self.edit.key_shift_up()
                            } else {
                                self.edit.key_up()
                            },
                            Key::Left => if k.shift {
                                self.edit.key_shift_left()
                            } else {
                                self.edit.key_left()
                            },
                            _ => if k.shift {
                                self.edit.key_shift_right()
                            } else {
                                self.edit.key_right()
                            },
                        }
                        EditTask::Update
                    } else {
                        let v = self.save();
                        match k.key {
                            Key::Down => EditTask::SaveAndMoveRow(v, true),
                            Key::Up => EditTask::SaveAndMoveRow(v, false),
                            Key::Left => EditTask::SaveAndMoveColumn(
                                v,
                                if column > 0 {
                                    Some(column - 1)
                                } else {
                                    None
                                },
                            ),
                            _ => EditTask::SaveAndMoveColumn(
                                v,
                                if column < usize::MAX && column + 1 < num_cols {
                                    Some(column + 1)
                                } else {
                                    None
                                },
                            ),
                        }
                    }
                },
                _ => EditTask::Nothing,
            },
            _ => EditTask::Nothing,
        }
    }
}

// ---------------------------------------------------------------------------
// The book list and the command line
// ---------------------------------------------------------------------------

/// A move of the book list.
#[derive(Copy, Clone, Debug, PartialEq, Eq, Structural)]
pub enum ListMove {
    Up,
    Down,
    SelectUp,
    SelectDown,
    PageUp,
    PageDown,
    SelectPageUp,
    SelectPageDown,
    Home,
    End,
    SelectToStart,
    SelectToEnd,
    ScrollUp(usize),
    ScrollDown(usize),
}

/// What is left to the caller after an event in the book list.
pub enum ColumnTask {
    /// Nothing to redraw.
    Nothing,
    /// Redraw.
    Update,
    /// Edit the selected book.
    ToEdit,
    /// Move the book list, then redraw.
    Move(ListMove),
    /// Scroll the selected book's details up (`true`) or down by the amount, then redraw.
    ScrollDetails(bool, usize),
    /// Put the text on the clipboard, then redraw.
    Copy(String),
    /// Type the text of the clipboard into the command line, then redraw.
    Paste,
    /// Clear the book list's selection, then redraw.
    DeselectBooks,
    /// Clear the book list's selection and leave its innermost scope, then redraw.
    Escape,
    /// Run the command line's words (the command line was cleared).
    Run(Vec<String>),
    /// Complete the last word: collect the candidates for the word, where given, set them
    /// as the completer, then call `complete`.
    Complete(Option<String>),
    /// Delete the selected books, then redraw.
    DeleteSelected,
}

pub enum ColumnTaskV {
    Nothing,
    Update,
    ToEdit,
    Move(ListMove),
    ScrollDetails(bool, usize),
    Copy(Seq<char>),
    Paste,
    DeselectBooks,
    Escape,
    Run(Seq<Seq<char>>),
    Complete(Option<Seq<char>>),
    DeleteSelected,
}

impl View for ColumnTask {
    type V = ColumnTaskV;

    open spec fn view(&self) -> ColumnTaskV {
        match self {
            ColumnTask::Nothing => ColumnTaskV::Nothing,
            ColumnTask::Update => ColumnTaskV::Update,
            ColumnTask::ToEdit => ColumnTaskV::ToEdit,
            ColumnTask::Move(m) => ColumnTaskV::Move(*m),
            ColumnTask::ScrollDetails(u, n) => ColumnTaskV::ScrollDetails(*u, *n),
            ColumnTask::Copy(s) => ColumnTaskV::Copy(s@),
            ColumnTask::Paste => ColumnTaskV::Paste,
            ColumnTask::DeselectBooks => ColumnTaskV::DeselectBooks,
            ColumnTask::Escape => ColumnTaskV::Escape,
            ColumnTask::Run(a) => ColumnTaskV::Run(strs(a@)),
            ColumnTask::Complete(w) => ColumnTaskV::Complete(opt_text(*w)),
            ColumnTask::DeleteSelected => ColumnTaskV::DeleteSelected,
        }
    }
}

/// The book list's input state: the command line, and whether keys go to it.
pub struct ColumnInput {
    pub command: CommandString,
    pub command_selected: bool,
}

/// What the book list knows of its surroundings: whether a book is selected, whether
/// the pointer is over the selected book's details, how wheel scrolling works, and
/// whether the clipboard can be used.
#[derive(Copy, Clone, Debug)]
pub struct ColumnContext {
    pub book_selected: bool,
    pub over_details: bool,
    pub inverted: bool,
    pub scroll: usize,
    pub clipboard: bool,
}

pub type ColumnInputV = (CommandV, bool);

/// The text that copying from the command line takes: the selection, else the line as
/// shown (nothing where it is empty).
pub open spec fn line_copied(c: CommandV) -> Option<Seq<char>> {
    if c.text.selection is Some {
        Some(chunks_spec(c.text).1)
    } else if display_spec(c).len() > 0 {
        Some(display_spec(c))
    } else {
        None
    }
}

pub open spec fn line_copy_task(c: CommandV) -> ColumnTaskV {
    match line_copied(c) {
        Some(t) => ColumnTaskV::Copy(t),
        None => ColumnTaskV::Update,
    }
}

pub open spec fn typed(c: CommandV, ch: char) -> CommandV {
    CommandV { text: append_spec(written_back(c).text, ch), completer: None, ..written_back(c) }
}

pub open spec fn deleted(c: CommandV) -> CommandV {
    CommandV { text: backspace_spec(written_back(c).text), completer: None, open_end: true, ..written_back(c) }
}

pub open spec fn cleared(c: CommandV) -> CommandV {
    CommandV { text: clear_spec(c.text), completer: None, autofilled: None, ..c }
}

/// A key moving within the command line: up and home to the start, down and end to the
/// end, left and right by a character; with Shift, extending the selection.
pub open spec fn line_moved(c: CommandV, key: Key, shift: bool) -> CommandV {
    with_text(
        c,
        match key {
            Key::Up | Key::Home => if shift {
                shift_up_spec(c.text)
            } else {
                to_start_spec(c.text)
            },
            Key::Down | Key::End => if shift {
                shift_down_spec(c.text)
            } else {
                to_end_spec(c.text)
            },
            Key::Left => if shift {
                shift_left_spec(c.text)
            } else {
                left_spec(c.text)
            },
            _ => if shift {
                shift_right_spec(c.text)
            } else {
                right_spec(c.text)
            },
        },
    )
}

/// The list move a key asks for (with Shift, the selecting one).
pub open spec fn list_move(key: Key, shift: bool) -> ListMove {
    match key {
        Key::Up => if shift {
            ListMove::SelectUp
        } else {
            ListMove::Up
        },
        Key::Down => if shift {
            ListMove::SelectDown
        } else {
            ListMove::Down
        },
        Key::PageUp => if shift {
            ListMove::SelectPageUp
        } else {
            ListMove::PageUp
        },
        Key::PageDown => if shift {
            ListMove::SelectPageDown
        } else {
            ListMove::PageDown
        },
        Key::Home => if shift {
            ListMove::SelectToStart
        } else {
            ListMove::Home
        },
        _ => if shift {
            ListMove::SelectToEnd
        } else {
            ListMove::End
        },
    }
}

/// Wheel scrolling: over the details, the details scroll; elsewhere the list. `down` is
/// the wheel's direction, which `inverted` reverses.
pub open spec fn wheel_task(ctx: ColumnContext, down: bool) -> ColumnTaskV {
    let up = if ctx.inverted {
        down
    } else {
        !down
    };
    if ctx.over_details {
        ColumnTaskV::ScrollDetails(up, ctx.scroll)
    } else if up {
        ColumnTaskV::Move(ListMove::ScrollUp(ctx.scroll))
    } else {
        ColumnTaskV::Move(ListMove::ScrollDown(ctx.scroll))
    }
}

/// A key held with Control alone on the command line.
pub open spec fn column_control_spec(w: ColumnInputV, ch: char, ctx: ColumnContext) -> (
    ColumnInputV,
    ColumnTaskV,
) {
    let c = w.0;
    if ch == 'v' && ctx.clipboard {
        (w, ColumnTaskV::Paste)
    } else if ch == 'c' && ctx.clipboard {
        (w, line_copy_task(c))
    } else if ch == 'x' && ctx.clipboard {
        if c.text.selection is Some {
            ((deleted(c), w.1), line_copy_task(c))
        } else {
            ((cleared(c), w.1), line_copy_task(c))
        }
    } else if ch == 'd' {
        ((with_text(c, to_end_spec(c.text)), false), ColumnTaskV::DeselectBooks)
    } else if ch == 'a' {
        ((with_text(c, select_all_spec(c.text)), w.1), ColumnTaskV::Update)
    } else {
        ((typed(c, ch), w.1), ColumnTaskV::Update)
    }
}

/// Whether the command line holds nothing, typed or offered.
pub open spec fn line_empty(c: CommandV) -> bool {
    c.text.text.len() == 0 && c.autofilled is None
}

/// The words a command line runs: its words with any offered completion in place.
pub open spec fn run_words(c: CommandV) -> Seq<Seq<char>> {
    Seq::new(autofilled_words(c).len(), |i: int| autofilled_words(c)[i].1)
}

/// The book list's input after an event, and the task left to the caller.
pub open spec fn column_event_spec(w: ColumnInputV, ev: InputEvent, ctx: ColumnContext) -> (
    ColumnInputV,
    ColumnTaskV,
) {
    let c = w.0;
    match ev {
        InputEvent::Resize => (w, ColumnTaskV::Update),
        InputEvent::ScrollDown(_, _) => (w, wheel_task(ctx, true)),
        InputEvent::ScrollUp(_, _) => (w, wheel_task(ctx, false)),
        InputEvent::OtherMouse => (w, ColumnTaskV::Nothing),
        InputEvent::Key(k) => match k.key {
            Key::F(2) => (w, if ctx.book_selected {
                ColumnTaskV::ToEdit
            } else {
                ColumnTaskV::Update
            }),
            Key::Backspace => (
                (
                    CommandV {
                        text: backspace_spec(written_back(c).text),
                        completer: None,
                        open_end: true,
                        ..written_back(c)
                    },
                    w.1,
                ),
                ColumnTaskV::Update,
            ),
            Key::Char(ch) => if control_only(k) {
                column_control_spec(w, ch, ctx)
            } else {
                ((typed(c, ch), w.1), ColumnTaskV::Update)
            },
            Key::Enter => if line_empty(c) {
                if ctx.book_selected {
                    (w, ColumnTaskV::ToEdit)
                } else {
                    ((c, true), ColumnTaskV::Update)
                }
            } else {
                ((cleared(c), w.1), ColumnTaskV::Run(run_words(c)))
            },
            Key::Tab | Key::BackTab => match c.completer {
                Some(_) => (w, ColumnTaskV::Complete(None)),
                None => (
                    (CommandV { keep_last: completion_word(c).1, ..c }, w.1),
                    ColumnTaskV::Complete(Some(completion_word(c).0)),
                ),
            },
            Key::Esc => ((cleared(c), false), ColumnTaskV::Escape),
            Key::Delete => if line_empty(c) {
                (w, ColumnTaskV::DeleteSelected)
            } else {
                ((deleted(c), w.1), ColumnTaskV::Update)
            },
            Key::Up | Key::Down | Key::PageUp | Key::PageDown | Key::Home | Key::End => if w.1 {
                ((line_moved(c, k.key, k.shift), w.1), ColumnTaskV::Update)
            } else {
                (w, ColumnTaskV::Move(list_move(k.key, k.shift)))
            },
            Key::Left | Key::Right => if !ctx.book_selected {
                ((line_moved(c, k.key, k.shift), true), ColumnTaskV::Update)
            } else {
                (w, ColumnTaskV::Update)
            },
            _ => (w, ColumnTaskV::Nothing),
        },
    }
}

/// Whether the event is a paging key.
pub open spec fn pages(ev: InputEvent) -> bool {
    match ev {
        InputEvent::Key(k) => k.key == Key::PageUp || k.key == Key::PageDown,
        _ => false,
    }
}

fn line_copy(c: &CommandString) -> (r: ColumnTask)
    requires
        c.wf(),
        readable(c@),
    ensures
        r@ == line_copy_task(c@),
{
    match c.selected() {
        Some(text) => ColumnTask::Copy(crate::text::string_from_chars(text)),
        None => {
            let s = c.to_string();
            if s.unicode_len() > 0 {
                ColumnTask::Copy(s)
            } else {
                ColumnTask::Update
            }
        },
    }
}

fn run_args(c: &CommandString) -> (r: Vec<String>)
    requires
        readable(c@),
    ensures
        strs(r@) == run_words(c@),
{
    let v = c.autofilled_values();
    let mut args: Vec<String> = Vec::new();
    let mut i: usize = 0;
    while i < v.len()
        invariant
            i <= v@.len(),
            crate::user_input::words_view(v@) == autofilled_words(c@),
            strs(args@) =~= run_words(c@).take(i as int),
        decreases v.len() - i,
    {
        let ghost prev = strs(args@);
        args.push(crate::text::copy_string(&v[i].1));
        assert(strs(args@) =~= prev.push(v@[i as int].1@));
        i = i + 1;
    }
    assert(run_words(c@).take(v@.len() as int) =~= run_words(c@));
    args
}

impl ColumnInput {
    /// Whether the command line is consistent.
    pub open spec fn wf(&self) -> bool {
        self.command.wf()
    }

    /// Handles an event in the book list, returning what is left to do. Paging is not
    /// available while keys go to the command line.
    pub fn handle_event(&mut self, ev: InputEvent, ctx: ColumnContext) -> (r: ColumnTask)
        requires
            old(self).wf(),
            readable(old(self).command@),
            !(old(self).command_selected && pages(ev)),
        ensures
            final(self).wf(),
            ((final(self).command@, final(self).command_selected), r@) == column_event_spec(
                (old(self).command@, old(self).command_selected),
                ev,
                ctx,
            ),
    {
        match ev {
            InputEvent::Resize => ColumnTask::Update,
            InputEvent::ScrollDown(_, _) | InputEvent::ScrollUp(_, _) => {
                let down = match ev {
                    InputEvent::ScrollDown(_, _) => true,
                    _ => false,
                };
                let up = if ctx.inverted {
                    down
                } else {
                    !down
                };
                if ctx.over_details {
                    ColumnTask::ScrollDetails(up, ctx.scroll)
                } else if up {
                    ColumnTask::Move(ListMove::ScrollUp(ctx.scroll))
                } else {
                    ColumnTask::Move(ListMove::ScrollDown(ctx.scroll))
                }
            },
            InputEvent::OtherMouse => ColumnTask::Nothing,
            InputEvent::Key(k) => match k.key {
                Key::F(2) => if ctx.book_selected {
                    ColumnTask::ToEdit
                } else {
                    ColumnTask::Update
                },
                Key::Backspace => {
                    self.command.backspace();
                    ColumnTask::Update
                },
                Key::Char(ch) => {
                    if k.control && !k.shift && !k.alt {
                        if ch == 'v' && ctx.clipboard {
                            ColumnTask::Paste
                        } else if ch == 'c' && ctx.clipboard {
                            line_copy(&self.command)
                        } else if ch == 'x' && ctx.clipboard {
                            let t = line_copy(&self.command);
                            if self.command.selected().is_some() {
                                self.command.del();
                            } else {
                                self.command.clear();
                            }
                            t
                        } else if ch == 'd' {
                            self.command_selected = false;
                            self.command.deselect();
                            ColumnTask::DeselectBooks
                        } else if ch == 'a' {
                            self.command.select_all();
                            ColumnTask::Update
                        } else {
                            self.command.push(ch);
                            ColumnTask::Update
                        }
                    } else {
                        self.command.push(ch);
                        ColumnTask::Update
                    }
                },
                Key::Enter => {
                    if self.command.is_empty() {
                        if ctx.book_selected {
                            ColumnTask::ToEdit
                        } else {
                            self.command_selected = true;
                            ColumnTask::Update
                        }
                    } else {
                        let args = run_args(&self.command);
                        self.command.clear();
                        ColumnTask::Run(args)
                    }
                },
                Key::Tab | Key::BackTab => {
                    let w = self.command.refresh_autofill();
                    ColumnTask::Complete(w)
                },
                Key::Esc => {
                    self.command_selected = false;
                    self.command.clear();
                    ColumnTask::Escape
                },
                Key::Delete => {
                    if self.command.is_empty() {
                        ColumnTask::DeleteSelected
                    } else {
                        self.command.del();
                        ColumnTask::Update
                    }
                },
                Key::Up | Key::Down | Key::PageUp | Key::PageDown | Key::Home | Key::End => {
                    if self.command_selected {
                        match k.key {
                            Key::Up | Key::Home => if k.shift {
                                self.command.key_shift_up()
                            } else {
                                self.command.key_up()
                            },
                            _ => if k.shift {
                                self.command.key_shift_down()
                            } else {
                                self.command.key_down()
                            },
                        }
                        ColumnTask::Update
                    } else {
                        let m = match k.key {
                            Key::Up => if k.shift {
                                ListMove::SelectUp
                            } else {
                                ListMove::Up
                            },
                            Key::Down => if k.shift {
                                ListMove::SelectDown
                            } else {
                                ListMove::Down
                            },
                            Key::PageUp => if k.shift {
                                ListMove::SelectPageUp
                            } else {
                                ListMove::PageUp
                            },
                            Key::PageDown => if k.shift {
                                ListMove::SelectPageDown
                            } else {
                                ListMove::PageDown
                            },
                            Key::Home => if k.shift {
                                ListMove::SelectToStart
                            } else {
                                ListMove::Home
                            },
                            _ => if k.shift {
                                ListMove::SelectToEnd
                            } else {
                                ListMove::End
                            },
                        };
                        ColumnTask::Move(m)
                    }
                },
                Key::Left | Key::Right => {
                    if !ctx.book_selected {
                        self.command_selected = true;
                        match k.key {
                            Key::Left => if k.shift {
                                self.command.key_shift_left()
                            } else {
                                self.command.key_left()
                            },
                            _ => if k.shift {
                                self.command.key_shift_right()
                            } else {
                                self.command.key_right()
                            },
                        }
                    }
                    ColumnTask::Update
                },
                _ => ColumnTask::Nothing,
            },
        }
    }
}

/// The kind of source the last word of an `:a` command line names, where it parses:
/// `Some(true)` for a directory, `Some(false)` for a file.
pub open spec fn completion_kind(args: Seq<Seq<char>>) -> Option<bool> {
    match parse_args_spec(args) {
        Some(Ok(ParsedV::AddBooks(sources))) => if sources.len() > 0 {
            match sources.last() {
                SourceV::File(_) => Some(false),
                SourceV::Dir(_, _) => Some(true),
                _ => None,
            }
        } else {
            None
        },
        _ => None,
    }
}

/// The words of the command line, as typed.
pub open spec fn typed_words(c: CommandV) -> Seq<Seq<char>> {
    Seq::new(words_of(c.text.text).len(), |i: int| words_of(c.text.text)[i].1)
}

impl ColumnInput {
    /// The words of the command line as typed.
    pub fn typed_args(&self) -> (r: Vec<String>)
        requires
            readable(self.command@),
        ensures
            strs(r@) == typed_words(self.command@),
    {
        let mut it = self.command.get_values();
        let v = crate::user_input::collect_words(&mut it);
        let mut args: Vec<String> = Vec::new();
        let mut i: usize = 0;
        while i < v.len()
            invariant
                i <= v@.len(),
                crate::user_input::words_view(v@) == words_of(self.command@.text.text),
                strs(args@) =~= typed_words(self.command@).take(i as int),
            decreases v.len() - i,
        {
            let ghost prev = strs(args@);
            args.push(crate::text::copy_string(&v[i].1));
            assert(strs(args@) =~= prev.push(v@[i as int].1@));
            i = i + 1;
        }
        assert(typed_words(self.command@).take(v@.len() as int) =~= typed_words(self.command@));
        args
    }

    /// Offers a completion after the completer was set: for an `:a` command line, a
    /// directory where its last source is one, else a file.
    pub fn complete(&mut self)
        requires
            old(self).wf(),
            readable(old(self).command@),
            parse_args_spec(typed_words(old(self).command@)) is Some,
        ensures
            final(self).wf(),
            final(self).command_selected == old(self).command_selected,
            match completion_kind(typed_words(old(self).command@)) {
                Some(dir) => final(self).command@ == auto_fill_spec(
                    old(self).command@,
                    dir,
                ),
                None => final(self).command@ == old(self).command@,
            },
    {
        let args = self.typed_args();
        match parse_args(args) {
            Ok(Command::AddBooks(sources)) => {
                if sources.len() > 0 {
                    match &sources[sources.len() - 1] {
                        crate::parser::Source::File(_) => self.command.auto_fill(false),
                        crate::parser::Source::Dir(_, _) => self.command.auto_fill(true),
                        _ => {},
                    }
                }
            },
            _ => {},
        }
    }
}

// ---------------------------------------------------------------------------
// The help text
// ---------------------------------------------------------------------------

/// What is left to the caller after an event in the help text.
#[derive(Copy, Clone, Debug, PartialEq, Eq, Structural)]
pub enum HelpTask {
    /// Nothing to redraw.
    Nothing,
    /// Redraw.
    Update,
    /// Return to the book list.
    ToColumns,
}

/// The help text after an event: the wheel scrolls by `scroll` lines (reversed where
/// `inverted`), the arrows by a line, the page keys by a window; Escape leaves.
pub open spec fn help_event_spec(t: ScrollV, ev: InputEvent, inverted: bool, scroll: usize) -> (
    ScrollV,
    HelpTask,
) {
    match ev {
        InputEvent::Resize => (t, HelpTask::Update),
        InputEvent::ScrollDown(_, _) => (if inverted {
            scrolled_up(t, scroll as int)
        } else {
            scrolled_down(t, scroll as int)
        }, HelpTask::Update),
        InputEvent::ScrollUp(_, _) => (if inverted {
            scrolled_down(t, scroll as int)
        } else {
            scrolled_up(t, scroll as int)
        }, HelpTask::Update),
        InputEvent::OtherMouse => (t, HelpTask::Nothing),
        InputEvent::Key(k) => match k.key {
            Key::Esc => (t, HelpTask::ToColumns),
            Key::Up => (scrolled_up(t, 1), HelpTask::Update),
            Key::Down => (scrolled_down(t, 1), HelpTask::Update),
            Key::PageDown => (scrolled_down(t, t.window_height), HelpTask::Update),
            Key::PageUp => (scrolled_up(t, t.window_height), HelpTask::Update),
            Key::Home => (ScrollV { offset: 0, ..t }, HelpTask::Update),
            Key::End => (ScrollV { offset: last_window(t), ..t }, HelpTask::Update),
            _ => (t, HelpTask::Nothing),
        },
    }
}

/// Handles an event in the help text, returning what is left to do.
pub fn help_event(text: &mut ScrollableText, ev: InputEvent, inverted: bool, scroll: usize) -> (r: HelpTask)
    ensures
        (final(text)@, r) == help_event_spec(old(text)@, ev, inverted, scroll),
{
    match ev {
        InputEvent::Resize => HelpTask::Update,
        InputEvent::ScrollDown(_, _) => {
            if inverted {
                text.scroll_up(scroll)
            } else {
                text.scroll_down(scroll)
            }
            HelpTask::Update
        },
        InputEvent::ScrollUp(_, _) => {
            if inverted {
                text.scroll_down(scroll)
            } else {
                text.scroll_up(scroll)
            }
            HelpTask::Update
        },
        InputEvent::OtherMouse => HelpTask::Nothing,
        InputEvent::Key(k) => match k.key {
            Key::Esc => HelpTask::ToColumns,
            Key::Up => {
                text.scroll_up(1);
                HelpTask::Update
            },
            Key::Down => {
                text.scroll_down(1);
                HelpTask::Update
            },
            Key::PageDown => {
                text.page_down();
                HelpTask::Update
            },
            Key::PageUp => {
                text.page_up();
                HelpTask::Update
            },
            Key::Home => {
                text.home();
                HelpTask::Update
            },
            Key::End => {
                text.end();
                HelpTask::Update
            },
            _ => HelpTask::Nothing,
        },
    }
}

} // verus!
