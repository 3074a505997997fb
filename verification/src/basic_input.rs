//! Text entry for the compact front end: a field being edited, which shows the
//! value it had until the first key, and a command line split into words at spaces, a
//! word beginning with a double quote running to the next one.
use vstd::prelude::*;

use crate::text::{chars_of, push_char, string_from_chars};
use crate::user_input::{AutoCompleter, CompleterV, completer_wf, next_completion, words_view};

verus! {

// ---------------------------------------------------------------------------
// A field being edited
// ---------------------------------------------------------------------------

/// A field being edited: until the first key it shows `orig_value`; the first typed
/// character replaces it, and the first delete empties it.
pub struct EditState {
    pub selected: usize,
    pub started_edit: bool,
    pub orig_value: String,
    pub new_value: String,
}

/// The text an edit shows.
pub open spec fn visible_spec(e: &EditState) -> Seq<char> {
    if e.started_edit {
        e.new_value@
    } else {
        e.orig_value@
    }
}

impl Default for EditState {
    fn default() -> (r: EditState)
        ensures
            r.selected == 0,
            !r.started_edit,
            r.orig_value@ == Seq::<char>::empty(),
            r.new_value@ == Seq::<char>::empty(),
    {
        EditState {
            selected: 0,
            started_edit: false,
            orig_value: String::new(),
            new_value: String::new(),
        }
    }
}

/// The text without its last character (the empty text stays empty).
pub open spec fn drop_last_char(s: Seq<char>) -> Seq<char> {
    if s.len() == 0 {
        s
    } else {
        s.drop_last()
    }
}

fn without_last(s: &String) -> (r: String)
    ensures
        r@ == drop_last_char(s@),
{
    let c = chars_of(s.as_str());
    if c.len() == 0 {
        return String::new();
    }
    let mut r = String::new();
    let mut i: usize = 0;
    while i + 1 < c.len()
        invariant
            i < c@.len(),
            r@ =~= c@.take(i as int),
        decreases c.len() - i,
    {
        push_char(&mut r, c[i]);
        i = i + 1;
    }
    assert(c@.take(i as int) =~= c@.drop_last());
    r
}

impl EditState {
    /// An edit of a field whose value is `orig_value`.
    pub fn new(orig_value: &str, selected: usize) -> (r: EditState)
        ensures
            r.selected == selected,
            !r.started_edit,
            r.orig_value@ == orig_value@,
            r.new_value@ == Seq::<char>::empty(),
    {
        EditState {
            selected,
            started_edit: false,
            orig_value: orig_value.to_string(),
            new_value: String::new(),
        }
    }

    /// Delete: removes the last typed character, or, before any key, empties the field.
    pub fn del(&mut self)
        ensures
            final(self).started_edit,
            final(self).new_value@ == (if old(self).started_edit {
                drop_last_char(old(self).new_value@)
            } else {
                Seq::<char>::empty()
            }),
            final(self).orig_value@ == old(self).orig_value@,
            final(self).selected == old(self).selected,
    {
        if self.started_edit {
            self.new_value = without_last(&self.new_value);
        } else {
            self.new_value = String::new();
        }
        self.started_edit = true;
    }

    /// Types `c`: the first key replaces the value the field had.
    pub fn push(&mut self, c: char)
        ensures
            final(self).started_edit,
            final(self).new_value@ == (if old(self).started_edit {
                old(self).new_value@
            } else {
                Seq::<char>::empty()
            }).push(c),
            final(self).orig_value@ == old(self).orig_value@,
            final(self).selected == old(self).selected,
    {
        if !self.started_edit {
            self.new_value = String::new();
        }
        self.started_edit = true;
        push_char(&mut self.new_value, c);
    }

    /// Starts editing from the value the field had, unless editing has started.
    pub fn edit_orig(&mut self)
        ensures
            final(self).started_edit,
            final(self).new_value@ == (if old(self).started_edit {
                old(self).new_value@
            } else {
                old(self).orig_value@
            }),
            final(self).orig_value@ == old(self).orig_value@,
            final(self).selected == old(self).selected,
    {
        if !self.started_edit {
            self.started_edit = true;
            self.new_value = self.orig_value.clone();
        }
    }

    /// Starts over with a new value for the field.
    pub fn reset_orig(&mut self, orig_value: String)
        ensures
            !final(self).started_edit,
            final(self).orig_value@ == orig_value@,
            final(self).new_value@ == Seq::<char>::empty(),
            final(self).selected == old(self).selected,
    {
        self.started_edit = false;
        self.orig_value = orig_value;
        self.new_value = String::new();
    }

    /// The text shown: the typed text once editing has started, else the value the field had.
    pub fn visible(&self) -> (r: &str)
        ensures
            r@ == visible_spec(self),
    {
        if self.started_edit {
            self.new_value.as_str()
        } else {
            self.orig_value.as_str()
        }
    }
}

} // verus!

verus! {

// ---------------------------------------------------------------------------
// Words of a command line
// ---------------------------------------------------------------------------

/// The state of reading words: the words read, whether a quoted word is open, and where
/// the current word starts.
pub ghost struct ScanV {
    pub values: Seq<(bool, Seq<char>)>,
    pub escaped: bool,
    pub start: int,
}

/// Reading the character at `end`: a space ends an unquoted word (a run of spaces ends
/// none); a double quote at the start of a word opens a quoted word, and one inside a
/// quoted word closes it, the closing quote starting the next word.
pub open spec fn scan_step(buf: Seq<char>, s: ScanV, end: int) -> ScanV {
    let c = buf[end];
    if c == ' ' && !s.escaped {
        if s.start != end {
            ScanV { values: s.values.push((false, buf.subrange(s.start, end))), start: end + 1, ..s }
        } else {
            ScanV { start: s.start + 1, ..s }
        }
    } else if c == '"' {
        if s.escaped {
            ScanV { values: s.values.push((true, buf.subrange(s.start, end))), start: end, escaped: false }
        } else if s.start == end {
            ScanV { escaped: true, start: end + 1, ..s }
        } else {
            s
        }
    } else {
        s
    }
}

/// The state after reading the first `n` characters.
pub open spec fn scan_upto(buf: Seq<char>, n: int) -> ScanV
    decreases n,
{
    if n <= 0 {
        ScanV { values: Seq::empty(), escaped: false, start: 0 }
    } else {
        scan_step(buf, scan_upto(buf, n - 1), n - 1)
    }
}

/// The words of a line, each with whether it was quoted.
pub open spec fn line_words(buf: Seq<char>) -> Seq<(bool, Seq<char>)> {
    let s = scan_upto(buf, buf.len() as int);
    if s.start < buf.len() {
        s.values.push((s.escaped, buf.subrange(s.start, buf.len() as int)))
    } else {
        s.values
    }
}

proof fn lemma_scan_start(buf: Seq<char>, n: int)
    requires
        0 <= n <= buf.len(),
    ensures
        0 <= scan_upto(buf, n).start <= n,
    decreases n,
{
    if n > 0 {
        lemma_scan_start(buf, n - 1);
    }
}

/// A word as written back: in double quotes where it was quoted.
pub open spec fn plain_render(w: (bool, Seq<char>)) -> Seq<char> {
    if w.0 {
        seq!['"'] + w.1 + seq!['"']
    } else {
        w.1
    }
}

/// The words written out, separated by single spaces.
pub open spec fn join_plain(v: Seq<(bool, Seq<char>)>) -> Seq<char>
    decreases v.len(),
{
    if v.len() == 0 {
        Seq::empty()
    } else if v.len() == 1 {
        plain_render(v[0])
    } else {
        join_plain(v.drop_last()) + seq![' '] + plain_render(v.last())
    }
}

fn chars_range(buf: &Vec<char>, lo: usize, hi: usize) -> (r: String)
    requires
        lo <= hi <= buf@.len(),
    ensures
        r@ == buf@.subrange(lo as int, hi as int),
{
    let mut r = String::new();
    let mut i = lo;
    while i < hi
        invariant
            lo <= i <= hi,
            hi <= buf@.len(),
            r@ =~= buf@.subrange(lo as int, i as int),
        decreases hi - i,
    {
        push_char(&mut r, buf[i]);
        i = i + 1;
    }
    r
}

/// The words of `buf`.
fn words_of_buf(buf: &Vec<char>) -> (r: Vec<(bool, String)>)
    ensures
        words_view(r@) == line_words(buf@),
{
    let ghost b = buf@;
    let mut values: Vec<(bool, String)> = Vec::new();
    let mut escaped = false;
    let mut start: usize = 0;
    let mut end: usize = 0;
    assert(words_view(values@) =~= Seq::<(bool, Seq<char>)>::empty());
    while end < buf.len()
        invariant
            end <= b.len(),
            b == buf@,
            start <= end,
            scan_upto(b, end as int) == (ScanV { values: words_view(values@), escaped, start: start as int }),
        decreases buf.len() - end,
    {
        let c = buf[end];
        let ghost prev = words_view(values@);
        if c == ' ' && !escaped {
            if start != end {
                let w = chars_range(buf, start, end);
                values.push((false, w));
                assert(words_view(values@) =~= prev.push((false, b.subrange(start as int, end as int))));
                start = end + 1;
            } else {
                start = start + 1;
            }
        } else if c == '"' {
            if escaped {
                let w = chars_range(buf, start, end);
                values.push((true, w));
                assert(words_view(values@) =~= prev.push((true, b.subrange(start as int, end as int))));
                start = end;
                escaped = false;
            } else if start == end {
                escaped = true;
                start = end + 1;
            }
        }
        end = end + 1;
    }
    if start < buf.len() {
        let ghost prev = words_view(values@);
        let w = chars_range(buf, start, buf.len());
        values.push((escaped, w));
        assert(words_view(values@) =~= prev.push((escaped, b.subrange(start as int, b.len() as int))));
    }
    values
}

fn push_plain(out: &mut Vec<char>, w: &(bool, String))
    ensures
        final(out)@ == old(out)@ + plain_render((w.0, w.1@)),
{
    let chars = chars_of(w.1.as_str());
    if w.0 {
        out.push('"');
    }
    let ghost base = out@;
    let mut i: usize = 0;
    while i < chars.len()
        invariant
            i <= chars@.len(),
            chars@ == w.1@,
            out@ == base + chars@.take(i as int),
        decreases chars.len() - i,
    {
        out.push(chars[i]);
        assert(chars@.take(i + 1) =~= chars@.take(i as int).push(chars@[i as int]));
        i = i + 1;
    }
    assert(chars@.take(chars@.len() as int) =~= chars@);
    if w.0 {
        out.push('"');
        assert(out@ =~= old(out)@ + plain_render((w.0, w.1@)));
    } else {
        assert(out@ =~= old(out)@ + plain_render((w.0, w.1@)));
    }
}

/// The words written out as a command line, separated by single spaces.
fn join_values(values: &Vec<(bool, String)>) -> (r: Vec<char>)
    ensures
        r@ == join_plain(words_view(values@)),
{
    let mut out: Vec<char> = Vec::new();
    let mut i: usize = 0;
    while i < values.len()
        invariant
            i <= values@.len(),
            out@ == join_plain(words_view(values@).take(i as int)),
        decreases values.len() - i,
    {
        if i > 0 {
            out.push(' ');
        }
        push_plain(&mut out, &values[i]);
        proof {
            let wv = words_view(values@);
            assert(wv.take(i + 1).drop_last() =~= wv.take(i as int));
            assert(wv.take(i + 1).last() == (values@[i as int].0, values@[i as int].1@));
            if i == 0 {
                assert(join_plain(wv.take(0)) =~= Seq::<char>::empty());
            }
        }
        i = i + 1;
    }
    assert(words_view(values@).take(values@.len() as int) =~= words_view(values@));
    out
}

} // verus!

verus! {

// ---------------------------------------------------------------------------
// The command line being typed
// ---------------------------------------------------------------------------

/// A command line being typed, with a path completion that can be offered in place of its
/// last word.
pub struct CommandString {
    char_buf: Vec<char>,
    auto_fill: Option<AutoCompleter>,
    autofilled: Option<String>,
    open_end: bool,
    keep_last: bool,
}

pub ghost struct LineV {
    pub buf: Seq<char>,
    pub completer: Option<CompleterV>,
    pub autofilled: Option<Seq<char>>,
    pub open_end: bool,
    pub keep_last: bool,
}

impl View for CommandString {
    type V = LineV;

    closed spec fn view(&self) -> LineV {
        LineV {
            buf: self.char_buf@,
            completer: match self.auto_fill {
                Some(a) => Some(a@),
                None => None,
            },
            autofilled: match self.autofilled {
                Some(s) => Some(s@),
                None => None,
            },
            open_end: self.open_end,
            keep_last: self.keep_last,
        }
    }
}

/// A completer's position lies within its candidates.
pub open spec fn line_wf(c: LineV) -> bool {
    c.completer matches Some(a) ==> completer_wf(a)
}

/// The words of the line with the offered completion in place of the last word (or after
/// it, where the last word is kept); the completion is quoted where it has a space.
pub open spec fn filled_words(c: LineV) -> Seq<(bool, Seq<char>)> {
    let w = line_words(c.buf);
    match c.autofilled {
        Some(s) => (if c.keep_last || w.len() == 0 {
            w
        } else {
            w.drop_last()
        }).push((s.contains(' '), s)),
        None => w,
    }
}

/// The line with any offered completion written into it.
pub open spec fn filled_back(c: LineV) -> LineV {
    match c.autofilled {
        Some(_) => LineV { buf: join_plain(filled_words(c)), autofilled: None, ..c },
        None => c,
    }
}

/// The word a new completer is to complete: the last word, or nothing after a flag
/// followed by a space (where the flag is then kept); and whether the last word is kept.
pub open spec fn completion_target(c: LineV) -> (Seq<char>, bool) {
    let w = line_words(c.buf);
    if w.len() == 0 {
        (Seq::empty(), c.keep_last)
    } else {
        let last = w.last();
        if !last.0 && last.1.len() > 0 && last.1[0] == '-' && c.buf.len() > 0 && c.buf.last()
            == ' ' {
            (Seq::empty(), true)
        } else {
            (last.1, false)
        }
    }
}

/// The line as displayed: with any offered completion written in (without a closing quote
/// while the end is open), else the text typed.
pub open spec fn shown_spec(c: LineV) -> Seq<char> {
    match c.autofilled {
        Some(_) => {
            let v = join_plain(filled_words(c));
            if c.open_end && v.len() > 0 && v.last() == '"' {
                v.drop_last()
            } else {
                v
            }
        },
        None => c.buf,
    }
}

fn contains_space(s: &String) -> (r: bool)
    ensures
        r == s@.contains(' '),
{
    let c = chars_of(s.as_str());
    let mut i: usize = 0;
    while i < c.len()
        invariant
            i <= c@.len(),
            c@ == s@,
            forall|j: int| 0 <= j < i ==> c@[j] != ' ',
        decreases c.len() - i,
    {
        if c[i] == ' ' {
            assert(s@[i as int] == ' ');
            return true;
        }
        i = i + 1;
    }
    false
}

impl Default for CommandString {
    fn default() -> (r: CommandString)
        ensures
            r@ == (LineV {
                buf: Seq::empty(),
                completer: None,
                autofilled: None,
                open_end: false,
                keep_last: false,
            }),
    {
        CommandString {
            char_buf: Vec::new(),
            auto_fill: None,
            autofilled: None,
            open_end: false,
            keep_last: false,
        }
    }
}

impl CommandString {
    /// Whether the state is consistent.
    pub closed spec fn wf(&self) -> bool {
        line_wf(self@)
    }

    /// The words written out as a command line, separated by single spaces, a quoted word
    /// in double quotes.
    pub fn vals_to_string(values: &Vec<(bool, String)>) -> (r: String)
        ensures
            r@ == join_plain(words_view(values@)),
    {
        let out = join_values(values);
        string_from_chars(out.as_slice())
    }

    /// An empty command line.
    pub fn new() -> (r: CommandString)
        ensures
            r@ == (LineV {
                buf: Seq::empty(),
                completer: None,
                autofilled: None,
                open_end: true,
                keep_last: false,
            }),
            r.wf(),
    {
        CommandString {
            char_buf: Vec::new(),
            auto_fill: None,
            autofilled: None,
            open_end: true,
            keep_last: false,
        }
    }

    /// Types `c` (after writing in any offered completion), and drops the completer.
    pub fn push(&mut self, c: char)
        requires
            old(self).wf(),
        ensures
            final(self).wf(),
            final(self)@ == (LineV {
                buf: filled_back(old(self)@).buf.push(c),
                completer: None,
                ..filled_back(old(self)@)
            }),
    {
        self.write_back();
        self.auto_fill = None;
        self.char_buf.push(c)
    }

    /// Backspace (after writing in any offered completion); drops the completer and opens
    /// the end of the line.
    pub fn pop(&mut self)
        requires
            old(self).wf(),
        ensures
            final(self).wf(),
            final(self)@ == (LineV {
                buf: drop_last_char(filled_back(old(self)@).buf),
                completer: None,
                open_end: true,
                ..filled_back(old(self)@)
            }),
    {
        self.write_back();
        self.auto_fill = None;
        self.char_buf.pop();
        self.open_end = true;
    }

    /// Writes an offered completion into the line.
    pub fn write_back(&mut self)
        requires
            old(self).wf(),
        ensures
            final(self).wf(),
            final(self)@ == filled_back(old(self)@),
    {
        if self.autofilled.is_some() {
            let v = self.get_values_autofilled();
            self.char_buf = join_values(&v);
            self.autofilled = None;
        }
    }

    /// Empties the line and drops the completer and any offered completion.
    pub fn clear(&mut self)
        ensures
            final(self)@ == (LineV {
                buf: Seq::empty(),
                completer: None,
                autofilled: None,
                ..old(self)@
            }),
            final(self).wf(),
    {
        self.auto_fill = None;
        self.autofilled = None;
        self.char_buf.clear();
    }

    /// Whether nothing is typed.
    pub fn is_empty(&self) -> (r: bool)
        ensures
            r == (self@.buf.len() == 0),
    {
        self.char_buf.len() == 0
    }

    /// Prepares completion: where no completer is set, returns the word one is needed for
    /// (and notes whether the last word is to be kept); the caller collects the candidates
    /// and sets the completer.
    pub fn refresh_autofill(&mut self) -> (r: Option<String>)
        requires
            old(self).wf(),
        ensures
            final(self).wf(),
            match old(self)@.completer {
                Some(_) => r is None && final(self)@ == old(self)@,
                None => r matches Some(w) && w@ == completion_target(old(self)@).0
                    && final(self)@ == (LineV {
                    keep_last: completion_target(old(self)@).1,
                    ..old(self)@
                }),
            },
    {
        if self.auto_fill.is_some() {
            return None;
        }
        let mut values = self.get_values();
        let ghost w = line_words(self@.buf);
        let n = values.len();
        if n == 0 {
            return Some(String::new());
        }
        let last = values.pop().unwrap();
        assert(words_view(values@).push((last.0, last.1@)) =~= w);
        let lw = chars_of(last.1.as_str());
        let buf = &self.char_buf;
        let ends_in_space = buf.len() > 0 && buf[buf.len() - 1] == ' ';
        if !last.0 && lw.len() > 0 && lw[0] == '-' && ends_in_space {
            self.keep_last = true;
            Some(String::new())
        } else {
            self.keep_last = false;
            Some(last.1)
        }
    }

    /// Sets the completer that `auto_fill` offers completions from.
    pub fn set_auto_fill(&mut self, completer: AutoCompleter)
        requires
            old(self).wf(),
            completer.wf(),
        ensures
            final(self).wf(),
            final(self)@ == (LineV { completer: Some(completer@), ..old(self)@ }),
    {
        self.auto_fill = Some(completer);
    }

    /// Offers the completer's next completion for the last word (only directories where
    /// `dir`), and closes the end of the line.
    pub fn auto_fill(&mut self, dir: bool)
        requires
            old(self).wf(),
        ensures
            final(self).wf(),
            match old(self)@.completer {
                None => final(self)@ == (LineV { open_end: false, ..old(self)@ }),
                Some(a) => {
                    let n = next_completion(a, dir);
                    final(self)@ == (LineV {
                        open_end: false,
                        completer: Some(n.0),
                        autofilled: match n.1 {
                            Some(p) => Some(p),
                            None => old(self)@.autofilled,
                        },
                        ..old(self)@
                    })
                },
            },
    {
        self.open_end = false;
        match self.auto_fill.take() {
            Some(mut af) => {
                let path = af.next_word(dir);
                self.auto_fill = Some(af);
                match path {
                    Some(p) => {
                        self.autofilled = Some(p);
                    },
                    None => {},
                }
            },
            None => {},
        }
    }

    /// The words of the line, each with whether it was quoted.
    pub fn get_values(&self) -> (r: Vec<(bool, String)>)
        ensures
            words_view(r@) == line_words(self@.buf),
    {
        words_of_buf(&self.char_buf)
    }

    /// The words of the line with any offered completion in place of the last word (or
    /// after it, where the last word is kept).
    pub fn get_values_autofilled(&self) -> (r: Vec<(bool, String)>)
        ensures
            words_view(r@) == filled_words(self@),
    {
        let mut values = self.get_values();
        let ghost w = words_view(values@);
        match &self.autofilled {
            Some(s) => {
                if !self.keep_last && values.len() > 0 {
                    values.pop();
                    assert(words_view(values@) =~= w.drop_last());
                }
                let ghost before = words_view(values@);
                let sp = contains_space(s);
                values.push((sp, s.clone()));
                assert(words_view(values@) =~= before.push((s@.contains(' '), s@)));
            },
            None => {},
        }
        values
    }

    /// The line as displayed.
    pub fn to_string(&self) -> (r: String)
        ensures
            r@ == shown_spec(self@),
    {
        if self.autofilled.is_some() {
            let v = self.get_values_autofilled();
            let mut vals = join_values(&v);
            if self.open_end && vals.len() > 0 && vals[vals.len() - 1] == '"' {
                vals.pop();
            }
            string_from_chars(vals.as_slice())
        } else {
            string_from_chars(self.char_buf.as_slice())
        }
    }
}

} // verus!

verus! {

// ---------------------------------------------------------------------------
// Reading a line back
// ---------------------------------------------------------------------------

/// A line of unquoted words separated by single spaces: no double quote, no space at
/// either end and no two spaces in a row.
pub open spec fn single_spaced(buf: Seq<char>) -> bool {
    &&& !buf.contains('"')
    &&& (buf.len() > 0 ==> buf[0] != ' ' && buf.last() != ' ')
    &&& forall|i: int| 0 <= i < buf.len() - 1 ==> !(#[trigger] buf[i] == ' ' && buf[i + 1] == ' ')
}

/// The words read so far, written out with the space that follows them.
pub open spec fn written_prefix(v: Seq<(bool, Seq<char>)>) -> Seq<char> {
    if v.len() == 0 {
        Seq::empty()
    } else {
        join_plain(v) + seq![' ']
    }
}

proof fn lemma_single_spaced_scan(buf: Seq<char>, n: int)
    requires
        single_spaced(buf),
        0 <= n <= buf.len(),
    ensures
        !scan_upto(buf, n).escaped,
        0 <= scan_upto(buf, n).start <= n,
        written_prefix(scan_upto(buf, n).values).len() == scan_upto(buf, n).start,
        buf.take(n) =~= written_prefix(scan_upto(buf, n).values) + buf.subrange(
            scan_upto(buf, n).start,
            n,
        ),
        scan_upto(buf, n).start > 0 ==> buf[scan_upto(buf, n).start - 1] == ' ',
        forall|i: int| 0 <= i < scan_upto(buf, n).values.len() ==> !(#[trigger] scan_upto(buf, n).values[i]).0,
    decreases n,
{
    if n > 0 {
        lemma_single_spaced_scan(buf, n - 1);
        let s = scan_upto(buf, n - 1);
        let c = buf[n - 1];
        assert(c != '"') by {
            if c == '"' {
                assert(buf.contains('"'));
            }
        }
        if c == ' ' {
            if s.start == n - 1 {
                if n - 1 == 0 {
                    assert(buf[0] == ' ');
                } else {
                    assert(buf[n - 2] == ' ');
                    assert(!(buf[n - 2] == ' ' && buf[n - 1] == ' '));
                }
            } else {
                let w = (false, buf.subrange(s.start, n - 1));
                let v2 = s.values.push(w);
                assert(v2.drop_last() =~= s.values);
                if s.values.len() == 0 {
                    assert(join_plain(v2) == plain_render(v2[0]));
                } else {
                    assert(join_plain(v2) == join_plain(s.values) + seq![' '] + plain_render(w));
                }
                assert(written_prefix(v2) =~= written_prefix(s.values) + buf.subrange(s.start, n - 1)
                    + seq![' ']);
                assert(buf.take(n) =~= buf.take(n - 1).push(' '));
                assert(scan_upto(buf, n).values == v2);
                assert forall|i: int| 0 <= i < v2.len() implies !(#[trigger] v2[i]).0 by {
                    if i < s.values.len() {
                        assert(v2[i] == s.values[i]);
                    }
                }
            }
        } else {
            assert(buf.take(n) =~= buf.take(n - 1).push(c));
        }
    }
}

/// A line of unquoted words separated by single spaces reads as unquoted words, which
/// written out again give back the line.
pub proof fn lemma_single_spaced_roundtrip(buf: Seq<char>)
    requires
        single_spaced(buf),
    ensures
        join_plain(line_words(buf)) == buf,
        forall|i: int| 0 <= i < line_words(buf).len() ==> !(#[trigger] line_words(buf)[i]).0,
{
    let n = buf.len() as int;
    lemma_single_spaced_scan(buf, n);
    let s = scan_upto(buf, n);
    assert(buf.take(n) =~= buf);
    if s.start < n {
        let w = (false, buf.subrange(s.start, n));
        let v2 = s.values.push(w);
        assert(v2.drop_last() =~= s.values);
        if s.values.len() == 0 {
            assert(join_plain(v2) == plain_render(v2[0]));
        } else {
            assert(join_plain(v2) == join_plain(s.values) + seq![' '] + plain_render(w));
        }
        assert(join_plain(v2) =~= buf);
        assert forall|i: int| 0 <= i < v2.len() implies !(#[trigger] v2[i]).0 by {
            if i < s.values.len() {
                assert(v2[i] == s.values[i]);
            }
        }
    } else {
        if n > 0 {
            assert(buf[n - 1] == ' ');
        }
        assert(s.values.len() == 0);
    }
}

/// Deleting after typing a character, once editing has started, restores the typed text.
pub proof fn lemma_del_undoes_push(e: (bool, Seq<char>, Seq<char>), c: char)
    requires
        e.0,
    ensures
        drop_last_char(e.2.push(c)) == e.2,
{
    assert(e.2.push(c).drop_last() =~= e.2);
}

/// Backspace after typing a character, with no completion offered, restores the line.
pub proof fn lemma_pop_undoes_push(c: LineV, ch: char)
    requires
        c.autofilled is None,
    ensures
        drop_last_char(filled_back(c).buf.push(ch)) == c.buf,
{
    assert(c.buf.push(ch).drop_last() =~= c.buf);
}

} // verus!
