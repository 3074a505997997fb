use vstd::prelude::*;

use crate::text::chars_of;

verus! {

/// The number of lines of a text: the lines end at '\n', and a last line needs no ending.
pub open spec fn line_count(s: Seq<char>) -> nat {
    newline_count(s) + if s.len() > 0 && s.last() != '\n' {
        1nat
    } else {
        0
    }
}

/// The number of '\n' characters in a text.
pub open spec fn newline_count(s: Seq<char>) -> nat
    decreases s.len(),
{
    if s.len() == 0 {
        0
    } else {
        newline_count(s.drop_last()) + if s.last() == '\n' {
            1nat
        } else {
            0
        }
    }
}

pub open spec fn sat_sub(a: int, b: int) -> int {
    if a >= b {
        a - b
    } else {
        0
    }
}

pub open spec fn sat_add(a: int, b: int) -> int {
    if a + b <= usize::MAX {
        a + b
    } else {
        usize::MAX as int
    }
}

pub open spec fn min(a: int, b: int) -> int {
    if a <= b {
        a
    } else {
        b
    }
}

proof fn lemma_line_count_newlines(s: Seq<char>)
    ensures
        newline_count(s) <= s.len(),
        s.len() > 0 && s.last() != '\n' ==> newline_count(s) < s.len(),
    decreases s.len(),
{
    if s.len() > 0 {
        lemma_line_count_newlines(s.drop_last());
    }
}

/// The number of lines of `s`.
fn count_lines(s: &str) -> (r: usize)
    ensures
        r == line_count(s@),
{
    let chars = chars_of(s);
    let mut n: usize = 0;
    let mut i: usize = 0;
    while i < chars.len()
        invariant
            i <= chars@.len(),
            chars@ == s@,
            n == newline_count(chars@.take(i as int)),
            n <= i,
        decreases chars.len() - i,
    {
        assert(chars@.take(i + 1).drop_last() =~= chars@.take(i as int));
        if chars[i] == '\n' {
            n = n + 1;
        }
        i = i + 1;
    }
    assert(chars@.take(chars@.len() as int) =~= chars@);
    proof {
        lemma_line_count_newlines(s@);
    }
    if chars.len() > 0 && chars[chars.len() - 1] != '\n' {
        n + 1
    } else {
        n
    }
}

/// A text shown in a window of some number of lines, scrolled by an offset in lines.
pub struct ScrollableText {
    text: String,
    height: usize,
    offset: usize,
    window_height: usize,
}

pub ghost struct ScrollV {
    pub text: Seq<char>,
    pub height: int,
    pub offset: int,
    pub window_height: int,
}

/// The first line of the last window of lines.
pub open spec fn last_window(t: ScrollV) -> int {
    sat_sub(t.height, t.window_height)
}

/// Scrolled down by `n` lines, but not past the last window.
pub open spec fn scrolled_down(t: ScrollV, n: int) -> ScrollV {
    ScrollV { offset: min(last_window(t), sat_add(t.offset, n)), ..t }
}

/// Scrolled up by `n` lines, stopping at the first.
pub open spec fn scrolled_up(t: ScrollV, n: int) -> ScrollV {
    ScrollV { offset: sat_sub(t.offset, n), ..t }
}

impl View for ScrollableText {
    type V = ScrollV;

    closed spec fn view(&self) -> ScrollV {
        ScrollV {
            text: self.text@,
            height: self.height as int,
            offset: self.offset as int,
            window_height: self.window_height as int,
        }
    }
}

impl ScrollableText {
    /// The text, at its first line, in a window of no lines.
    pub fn new(text: &str) -> (r: ScrollableText)
        ensures
            r@ == (ScrollV { text: text@, height: line_count(text@) as int, offset: 0, window_height: 0 }),
    {
        let height = count_lines(text);
        let chars = chars_of(text);
        ScrollableText {
            height,
            text: crate::text::string_from_chars(chars.as_slice()),
            offset: 0,
            window_height: 0,
        }
    }

    /// Scrolls down by `scroll` lines, but not past the last window of lines.
    pub fn scroll_down(&mut self, scroll: usize)
        ensures
            final(self)@ == scrolled_down(old(self)@, scroll as int),
    {
        let last = if self.height >= self.window_height {
            self.height - self.window_height
        } else {
            0
        };
        let target = if scroll <= usize::MAX - self.offset {
            self.offset + scroll
        } else {
            usize::MAX
        };
        self.offset = if last <= target {
            last
        } else {
            target
        };
    }

    /// Scrolls up by `scroll` lines, stopping at the first.
    pub fn scroll_up(&mut self, scroll: usize)
        ensures
            final(self)@ == scrolled_up(old(self)@, scroll as int),
    {
        self.offset = if self.offset >= scroll {
            self.offset - scroll
        } else {
            0
        };
    }

    /// Scrolls up by a window of lines.
    pub fn page_up(&mut self)
        ensures
            final(self)@ == scrolled_up(old(self)@, old(self)@.window_height),
    {
        let h = self.window_height;
        self.scroll_up(h)
    }

    /// Scrolls down by a window of lines, but not past the last window.
    pub fn page_down(&mut self)
        ensures
            final(self)@ == scrolled_down(old(self)@, old(self)@.window_height),
    {
        let h = self.window_height;
        self.scroll_down(h)
    }

    /// Scrolls to the first line.
    pub fn home(&mut self)
        ensures
            final(self)@ == (ScrollV { offset: 0, ..old(self)@ }),
    {
        self.offset = 0;
    }

    /// Scrolls to the last window of lines.
    pub fn end(&mut self)
        ensures
            final(self)@ == (ScrollV { offset: last_window(old(self)@), ..old(self)@ }),
    {
        self.offset = if self.height >= self.window_height {
            self.height - self.window_height
        } else {
            0
        };
    }

    /// The first line shown.
    pub fn offset(&self) -> (r: usize)
        ensures
            r == self@.offset,
    {
        self.offset
    }

    /// Sets the number of lines the window shows.
    pub fn refresh_window_height(&mut self, height: usize)
        ensures
            final(self)@ == (ScrollV { window_height: height as int, ..old(self)@ }),
    {
        self.window_height = height;
    }

    /// The text.
    pub fn text(&self) -> (r: &String)
        ensures
            r@ == self@.text,
    {
        &self.text
    }
}

/// A scroll offset over a text whose number of lines is only known when it is shown.
pub struct BlindOffset {
    offset: usize,
    window_height: usize,
}

pub ghost struct BlindV {
    pub offset: int,
    pub window_height: int,
}

impl View for BlindOffset {
    type V = BlindV;

    closed spec fn view(&self) -> BlindV {
        BlindV { offset: self.offset as int, window_height: self.window_height as int }
    }
}

impl BlindOffset {
    pub fn new() -> (r: BlindOffset)
        ensures
            r@ == (BlindV { offset: 0, window_height: 0 }),
    {
        BlindOffset { offset: 0, window_height: 0 }
    }

    /// Scrolls down by `scroll` lines (saturating).
    pub fn scroll_down(&mut self, scroll: usize)
        ensures
            final(self)@ == (BlindV { offset: sat_add(old(self)@.offset, scroll as int), ..old(self)@ }),
    {
        self.offset = if scroll <= usize::MAX - self.offset {
            self.offset + scroll
        } else {
            usize::MAX
        };
    }

    /// Scrolls up by `scroll` lines, stopping at the first.
    pub fn scroll_up(&mut self, scroll: usize)
        ensures
            final(self)@ == (BlindV { offset: sat_sub(old(self)@.offset, scroll as int), ..old(self)@ }),
    {
        self.offset = if self.offset >= scroll {
            self.offset - scroll
        } else {
            0
        };
    }

    pub fn page_up(&mut self)
        ensures
            final(self)@ == (BlindV {
                offset: sat_sub(old(self)@.offset, old(self)@.window_height),
                ..old(self)@
            }),
    {
        let h = self.window_height;
        self.scroll_up(h)
    }

    pub fn page_down(&mut self)
        ensures
            final(self)@ == (BlindV {
                offset: sat_add(old(self)@.offset, old(self)@.window_height),
                ..old(self)@
            }),
    {
        let h = self.window_height;
        self.scroll_down(h)
    }

    pub fn home(&mut self)
        ensures
            final(self)@ == (BlindV { offset: 0, ..old(self)@ }),
    {
        self.offset = 0;
    }

    /// Scrolls to the end, wherever that turns out to be.
    pub fn end(&mut self)
        ensures
            final(self)@ == (BlindV { offset: usize::MAX as int, ..old(self)@ }),
    {
        self.offset = usize::MAX;
    }

    /// The offset for a text of `height` lines: at most its last window. The offset is
    /// kept.
    pub fn offset_with_height(&mut self, height: usize) -> (r: usize)
        ensures
            r == min(sat_sub(height as int, old(self)@.window_height), old(self)@.offset),
            final(self)@ == (BlindV { offset: r as int, ..old(self)@ }),
    {
        let last = if height >= self.window_height {
            height - self.window_height
        } else {
            0
        };
        self.offset = if last <= self.offset {
            last
        } else {
            self.offset
        };
        self.offset
    }

    pub fn refresh_window_height(&mut self, height: usize)
        ensures
            final(self)@ == (BlindV { window_height: height as int, ..old(self)@ }),
    {
        self.window_height = height;
    }
}

} // verus!
