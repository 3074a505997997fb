//! The `!`-prefixed command language of the compact front end: `!a` adds books,
//! `!d` deletes, `!e` edits, `!s` sorts, `!c` adds or removes columns, `!f` searches,
//! `!o` opens a book, `!m` merges and `!q`, `!w`, `!wq` quit and write.
use vstd::prelude::*;

use crate::parser::{Groups, copy_strings, groups, read_args, read_args_spec, strs};
use crate::text::{chars_of, eq_chars, parse_decimal, parse_unsigned, push_char};

verus! {

// ---------------------------------------------------------------------------
// Flags
// ---------------------------------------------------------------------------

/// A flag of a command line, with the arguments that follow it.
#[derive(Debug)]
pub enum Flag {
    /// A flag without arguments, its leading dashes removed.
    Flag(String),
    /// A flag with its arguments.
    FlagWithArgument(String, Vec<String>),
    /// Arguments before the first flag.
    PositionalArg(Vec<String>),
}

pub enum FlagV {
    Flag(Seq<char>),
    FlagWithArgument(Seq<char>, Seq<Seq<char>>),
    PositionalArg(Seq<Seq<char>>),
}

impl View for Flag {
    type V = FlagV;

    open spec fn view(&self) -> FlagV {
        match self {
            Flag::Flag(f) => FlagV::Flag(f@),
            Flag::FlagWithArgument(f, a) => FlagV::FlagWithArgument(f@, strs(a@)),
            Flag::PositionalArg(a) => FlagV::PositionalArg(strs(a@)),
        }
    }
}

pub open spec fn flags_view(v: Seq<Flag>) -> Seq<FlagV> {
    Seq::new(v.len(), |i: int| v[i]@)
}

/// Every argument list of the flags is non-empty.
pub open spec fn flags_wf(f: Seq<FlagV>) -> bool {
    forall|i: int|
        0 <= i < f.len() ==> match #[trigger] f[i] {
            FlagV::Flag(_) => true,
            FlagV::FlagWithArgument(_, a) => a.len() > 0,
            FlagV::PositionalArg(a) => a.len() > 0,
        }
}

/// The text without its leading dashes.
pub open spec fn trim_dashes(s: Seq<char>) -> Seq<char>
    decreases s.len(),
{
    if s.len() > 0 && s[0] == '-' {
        trim_dashes(s.drop_first())
    } else {
        s
    }
}

/// The flag a flag group stands for.
pub open spec fn group_flag(g: (Seq<char>, Seq<Seq<char>>)) -> FlagV {
    if g.1.len() == 0 {
        FlagV::Flag(trim_dashes(g.0))
    } else {
        FlagV::FlagWithArgument(trim_dashes(g.0), g.1)
    }
}

/// The flag groups that are reported: a last flag without arguments is dropped where it
/// directly follows a flag with arguments.
pub open spec fn reported_groups(g: Groups) -> Groups {
    if g.len() >= 2 && g.last().1.len() == 0 && g[g.len() - 2].1.len() > 0 {
        g.drop_last()
    } else {
        g
    }
}

/// The flags of a command line (the command name first): the arguments before the first
/// flag, if any, then each reported flag group.
pub open spec fn read_flags_spec(args: Seq<Seq<char>>) -> Seq<FlagV> {
    if args.len() <= 1 {
        Seq::empty()
    } else {
        let lead = read_args_spec(args).0;
        let gs = reported_groups(read_args_spec(args).1).map_values(|g| group_flag(g));
        if lead.len() > 0 {
            seq![FlagV::PositionalArg(lead)] + gs
        } else {
            gs
        }
    }
}

/// `s` without its leading dashes.
fn trim_leading_dashes(s: &String) -> (r: String)
    ensures
        r@ == trim_dashes(s@),
{
    let c = chars_of(s.as_str());
    let mut i: usize = 0;
    assert(c@.skip(0) =~= c@);
    while i < c.len() && c[i] == '-'
        invariant
            i <= c@.len(),
            c@ == s@,
            trim_dashes(c@.skip(i as int)) == trim_dashes(s@),
        decreases c.len() - i,
    {
        assert(c@.skip(i as int).drop_first() =~= c@.skip(i + 1));
        i = i + 1;
    }
    let start = i;
    let mut r = String::new();
    while i < c.len()
        invariant
            start <= i <= c@.len(),
            r@ =~= c@.subrange(start as int, i as int),
        decreases c.len() - i,
    {
        push_char(&mut r, c[i]);
        i = i + 1;
    }
    proof {
        assert(c@.subrange(start as int, c@.len() as int) =~= c@.skip(start as int));
        if start < c@.len() {
            assert(c@.skip(start as int)[0] == c@[start as int]);
        }
    }
    r
}

fn group_to_flag(g: &(String, Vec<String>)) -> (r: Flag)
    ensures
        r@ == group_flag((g.0@, strs(g.1@))),
{
    let name = trim_leading_dashes(&g.0);
    if g.1.len() == 0 {
        Flag::Flag(name)
    } else {
        let a = copy_strings(&g.1, 0);
        assert(strs(g.1@).skip(0) =~= strs(g.1@));
        Flag::FlagWithArgument(name, a)
    }
}

/// Reads a whitespace-split command line and collects flags and their arguments.
pub fn read_flags(args: Vec<String>) -> (r: Vec<Flag>)
    ensures
        flags_view(r@) == read_flags_spec(strs(args@)),
        flags_wf(flags_view(r@)),
{
    let ghost sargs = strs(args@);
    if args.len() <= 1 {
        let r: Vec<Flag> = Vec::new();
        assert(flags_view(r@) =~= Seq::<FlagV>::empty());
        return r;
    }
    let (lead, trailing) = read_args(&args);
    let ghost g = groups(trailing@);
    let n = trailing.len();
    let keep = if n >= 2 && trailing[n - 1].1.len() == 0 && trailing[n - 2].1.len() > 0 {
        n - 1
    } else {
        n
    };
    proof {
        assert(g.len() == n);
        assert(reported_groups(g) =~= g.take(keep as int));
    }
    let mut flags: Vec<Flag> = Vec::new();
    let ghost base: Seq<FlagV> = Seq::empty();
    if lead.len() > 0 {
        flags.push(Flag::PositionalArg(lead));
        proof {
            base = seq![FlagV::PositionalArg(read_args_spec(sargs).0)];
        }
    }
    assert(flags_view(flags@) =~= base);
    let mut i: usize = 0;
    while i < keep
        invariant
            i <= keep <= n,
            n == trailing@.len(),
            g == groups(trailing@),
            flags_view(flags@) =~= base + g.take(i as int).map_values(|x| group_flag(x)),
            flags_wf(base),
        decreases keep - i,
    {
        let f = group_to_flag(&trailing[i]);
        proof {
            assert(g[i as int] == (trailing@[i as int].0@, strs(trailing@[i as int].1@)));
        }
        let ghost prev = flags@;
        flags.push(f);
        proof {
            assert(flags_view(flags@) =~= flags_view(prev).push(f@));
            assert(g.take(i + 1).map_values(|x| group_flag(x)) =~= g.take(i as int).map_values(
                |x| group_flag(x),
            ).push(group_flag(g[i as int])));
        }
        i = i + 1;
    }
    proof {
        let gs = reported_groups(g).map_values(|x| group_flag(x));
        assert(flags_view(flags@) =~= base + gs);
        assert(read_flags_spec(sargs) =~= base + gs);
        assert forall|j: int| 0 <= j < gs.len() implies match #[trigger] gs[j] {
            FlagV::Flag(_) => true,
            FlagV::FlagWithArgument(_, a) => a.len() > 0,
            FlagV::PositionalArg(a) => a.len() > 0,
        } by {
            assert(gs[j] == group_flag(reported_groups(g)[j]));
        }
        let all = base + gs;
        assert forall|j: int| 0 <= j < all.len() implies match #[trigger] all[j] {
            FlagV::Flag(_) => true,
            FlagV::FlagWithArgument(_, a) => a.len() > 0,
            FlagV::PositionalArg(a) => a.len() > 0,
        } by {
            if j < base.len() {
                assert(all[j] == base[j]);
            } else {
                assert(all[j] == gs[j - base.len()]);
            }
        }
    }
    flags
}

// ---------------------------------------------------------------------------
// Commands
// ---------------------------------------------------------------------------

/// The book a command applies to.
#[derive(Copy, Clone, Debug, PartialEq, Eq, Structural)]
pub enum BookIndex {
    Selected,
    BookID(u32),
}

/// How `!f` compares the search text with a column.
#[derive(Copy, Clone, Debug, PartialEq, Eq, Structural)]
pub enum Matching {
    Default,
    Regex,
    CaseSensitive,
}

/// A command line that cannot be run.
#[derive(Copy, Clone, Debug, PartialEq, Eq, Structural)]
pub enum CommandError {
    UnknownCommand,
    InsufficientArguments,
    InvalidCommand,
}

/// A parsed command. Paths are kept as the text given.
#[derive(Debug)]
pub enum Command {
    DeleteBook(BookIndex),
    DeleteAll,
    EditBook(BookIndex, String, String),
    AddBookFromFile(String),
    AddBooksFromDir(String),
    AddColumn(String),
    RemoveColumn(String),
    SortColumn(String, bool),
    OpenBookInApp(BookIndex, usize),
    OpenBookInExplorer(BookIndex, usize),
    TryMergeAllBooks,
    Quit,
    Write,
    WriteAndQuit,
    FindMatches(Matching, String, String),
}

pub enum CommandV {
    DeleteBook(BookIndex),
    DeleteAll,
    EditBook(BookIndex, Seq<char>, Seq<char>),
    AddBookFromFile(Seq<char>),
    AddBooksFromDir(Seq<char>),
    AddColumn(Seq<char>),
    RemoveColumn(Seq<char>),
    SortColumn(Seq<char>, bool),
    OpenBookInApp(BookIndex, usize),
    OpenBookInExplorer(BookIndex, usize),
    TryMergeAllBooks,
    Quit,
    Write,
    WriteAndQuit,
    FindMatches(Matching, Seq<char>, Seq<char>),
}

impl View for Command {
    type V = CommandV;

    open spec fn view(&self) -> CommandV {
        match self {
            Command::DeleteBook(b) => CommandV::DeleteBook(*b),
            Command::DeleteAll => CommandV::DeleteAll,
            Command::EditBook(b, c, v) => CommandV::EditBook(*b, c@, v@),
            Command::AddBookFromFile(p) => CommandV::AddBookFromFile(p@),
            Command::AddBooksFromDir(p) => CommandV::AddBooksFromDir(p@),
            Command::AddColumn(c) => CommandV::AddColumn(c@),
            Command::RemoveColumn(c) => CommandV::RemoveColumn(c@),
            Command::SortColumn(c, d) => CommandV::SortColumn(c@, *d),
            Command::OpenBookInApp(b, i) => CommandV::OpenBookInApp(*b, *i),
            Command::OpenBookInExplorer(b, i) => CommandV::OpenBookInExplorer(*b, *i),
            Command::TryMergeAllBooks => CommandV::TryMergeAllBooks,
            Command::Quit => CommandV::Quit,
            Command::Write => CommandV::Write,
            Command::WriteAndQuit => CommandV::WriteAndQuit,
            Command::FindMatches(m, c, t) => CommandV::FindMatches(*m, c@, t@),
        }
    }
}

/// Whether running the command needs the interface: it acts on the selected book or on
/// the columns or search shown.
pub open spec fn requires_ui_spec(c: CommandV) -> bool {
    match c {
        CommandV::DeleteBook(b) => b == BookIndex::Selected,
        CommandV::EditBook(b, _, _) => b == BookIndex::Selected,
        CommandV::OpenBookInApp(b, _) => b == BookIndex::Selected,
        CommandV::OpenBookInExplorer(b, _) => b == BookIndex::Selected,
        CommandV::AddColumn(_) => true,
        CommandV::RemoveColumn(_) => true,
        CommandV::SortColumn(_, _) => true,
        CommandV::FindMatches(_, _, _) => true,
        _ => false,
    }
}

impl Command {
    pub fn requires_ui(&self) -> (r: bool)
        ensures
            r == requires_ui_spec(self@),
    {
        match self {
            Command::DeleteBook(b) => *b == BookIndex::Selected,
            Command::EditBook(b, _, _) => *b == BookIndex::Selected,
            Command::OpenBookInApp(b, _) => *b == BookIndex::Selected,
            Command::OpenBookInExplorer(b, _) => *b == BookIndex::Selected,
            Command::AddColumn(_) => true,
            Command::RemoveColumn(_) => true,
            Command::SortColumn(_, _) => true,
            Command::FindMatches(_, _, _) => true,
            _ => false,
        }
    }
}

// ---------------------------------------------------------------------------
// Reading the commands
// ---------------------------------------------------------------------------

/// `u32::from_str` of the text.
pub open spec fn parse_u32(s: Seq<char>) -> Option<u32> {
    match parse_unsigned(s, u32::MAX as int) {
        Some(v) => Some(v as u32),
        None => None,
    }
}

/// `usize::from_str` of the text.
pub open spec fn parse_usize(s: Seq<char>) -> Option<usize> {
    match parse_unsigned(s, usize::MAX as int) {
        Some(v) => Some(v as usize),
        None => None,
    }
}

/// `!a`, from flag `i` on, with `d` set once a `-d` was seen and the path of the positional
/// arguments, if any: a file, or a directory once `-d` is given.
pub open spec fn add_scan(f: Seq<FlagV>, i: int, d: bool, path: Option<Seq<char>>) -> Result<
    CommandV,
    CommandError,
>
    decreases f.len() - i,
{
    if i < 0 || i >= f.len() {
        match path {
            Some(p) => Ok(
                if d {
                    CommandV::AddBooksFromDir(p)
                } else {
                    CommandV::AddBookFromFile(p)
                },
            ),
            None => Err(CommandError::InsufficientArguments),
        }
    } else {
        match f[i] {
            FlagV::Flag(c) => {
                let d2 = d || c == seq!['d'];
                if d2 && path is Some {
                    Ok(CommandV::AddBooksFromDir(path->0))
                } else {
                    add_scan(f, i + 1, d2, path)
                }
            },
            FlagV::FlagWithArgument(c, a) => {
                let d2 = d || c == seq!['d'];
                if d2 {
                    Ok(CommandV::AddBooksFromDir(a[0]))
                } else {
                    add_scan(f, i + 1, d2, path)
                }
            },
            FlagV::PositionalArg(a) => {
                let p2 = if path is None {
                    Some(a[0])
                } else {
                    path
                };
                if d {
                    Ok(CommandV::AddBooksFromDir(p2->0))
                } else {
                    add_scan(f, i + 1, d, p2)
                }
            },
        }
    }
}

/// `!s`, from flag `i` on: the first positional argument is the column, and `-d` sorts
/// in descending order.
pub open spec fn sort_scan(f: Seq<FlagV>, i: int, d: bool, col: Option<Seq<char>>) -> Result<
    CommandV,
    CommandError,
>
    decreases f.len() - i,
{
    if i < 0 || i >= f.len() {
        match col {
            Some(c) => Ok(CommandV::SortColumn(c, d)),
            None => Err(CommandError::InsufficientArguments),
        }
    } else {
        match f[i] {
            FlagV::Flag(x) => if x == seq!['d'] {
                if col is Some {
                    Ok(CommandV::SortColumn(col->0, true))
                } else {
                    sort_scan(f, i + 1, true, col)
                }
            } else {
                sort_scan(f, i + 1, d, col)
            },
            FlagV::FlagWithArgument(x, a) => {
                let d2 = d || x == seq!['d'];
                if d2 {
                    Ok(CommandV::SortColumn(a[0], true))
                } else {
                    sort_scan(f, i + 1, d2, col)
                }
            },
            FlagV::PositionalArg(a) => if d {
                Ok(CommandV::SortColumn(a[0], true))
            } else {
                sort_scan(
                    f,
                    i + 1,
                    d,
                    if col is None {
                        Some(a[0])
                    } else {
                        col
                    },
                )
            },
        }
    }
}

/// Opening a book in the file manager (`explorer`) or in its application.
pub open spec fn open_cmd(explorer: bool, b: BookIndex, v: usize) -> CommandV {
    if explorer {
        CommandV::OpenBookInExplorer(b, v)
    } else {
        CommandV::OpenBookInApp(b, v)
    }
}

/// What `!o` opens once every flag is read: the book and variant given as positional
/// arguments where they are numbers, else the selected book.
pub open spec fn open_finish(explorer: bool, loc: Option<Seq<char>>, index: Option<Seq<char>>) -> CommandV {
    match loc {
        Some(l) => match parse_u32(l) {
            Some(b) => match index {
                Some(ix) => match parse_usize(ix) {
                    Some(v) => open_cmd(explorer, BookIndex::BookID(b), v),
                    None => open_cmd(explorer, BookIndex::Selected, 0),
                },
                None => open_cmd(explorer, BookIndex::BookID(b), 0),
            },
            None => open_cmd(explorer, BookIndex::Selected, 0),
        },
        None => open_cmd(explorer, BookIndex::Selected, 0),
    }
}

/// `!o`, from flag `i` on. `-f` opens in the file manager; `-f id [variant]` does so at
/// once; any other flag with arguments is refused.
pub open spec fn open_scan(
    f: Seq<FlagV>,
    i: int,
    explorer: bool,
    loc: Option<Seq<char>>,
    index: Option<Seq<char>>,
) -> Result<CommandV, CommandError>
    decreases f.len() - i,
{
    if i < 0 || i >= f.len() {
        Ok(open_finish(explorer, loc, index))
    } else {
        match f[i] {
            FlagV::Flag(c) => open_scan(f, i + 1, explorer || c == seq!['f'], loc, index),
            FlagV::FlagWithArgument(c, a) => if c == seq!['f'] && a.len() > 0 && parse_u32(
                a[0],
            ) is Some {
                Ok(
                    CommandV::OpenBookInExplorer(
                        BookIndex::BookID(parse_u32(a[0])->0),
                        if a.len() > 1 && parse_usize(a[1]) is Some {
                            parse_usize(a[1])->0
                        } else {
                            0
                        },
                    ),
                )
            } else {
                Err(CommandError::InvalidCommand)
            },
            FlagV::PositionalArg(a) => open_scan(
                f,
                i + 1,
                explorer,
                if a.len() > 0 {
                    Some(a[0])
                } else {
                    loc
                },
                if a.len() > 1 {
                    Some(a[1])
                } else {
                    index
                },
            ),
        }
    }
}

/// `!d`: the selected book, the book with the given ID, or every book with `-a`.
pub open spec fn delete_spec(f: Seq<FlagV>) -> Result<CommandV, CommandError> {
    if f.len() == 0 {
        Ok(CommandV::DeleteBook(BookIndex::Selected))
    } else {
        match f[0] {
            FlagV::Flag(a) => if a == seq!['a'] {
                Ok(CommandV::DeleteAll)
            } else {
                Err(CommandError::InvalidCommand)
            },
            FlagV::PositionalArg(a) => match parse_u32(a[0]) {
                Some(id) => Ok(CommandV::DeleteBook(BookIndex::BookID(id))),
                None => Err(CommandError::InvalidCommand),
            },
            FlagV::FlagWithArgument(_, _) => Err(CommandError::InvalidCommand),
        }
    }
}

/// `!e [id] column value`: the book is given only where three arguments are and the first
/// is a number.
pub open spec fn edit_spec(f: Seq<FlagV>) -> Result<CommandV, CommandError> {
    if f.len() > 0 && f[0] is PositionalArg {
        let a = f[0]->PositionalArg_0;
        if a.len() < 2 {
            Err(CommandError::InsufficientArguments)
        } else if a.len() >= 3 && parse_u32(a[0]) is Some {
            Ok(CommandV::EditBook(BookIndex::BookID(parse_u32(a[0])->0), a[1], a[2]))
        } else {
            Ok(CommandV::EditBook(BookIndex::Selected, a[0], a[1]))
        }
    } else {
        Err(CommandError::InvalidCommand)
    }
}

/// `!m -a`.
pub open spec fn merge_spec(f: Seq<FlagV>) -> Result<CommandV, CommandError> {
    if f.len() > 0 && f[0] == FlagV::Flag(seq!['a']) {
        Ok(CommandV::TryMergeAllBooks)
    } else {
        Err(CommandError::InvalidCommand)
    }
}

/// `!c column` adds a column, `!c -column` removes it.
pub open spec fn column_spec(f: Seq<FlagV>) -> Result<CommandV, CommandError> {
    if f.len() == 0 {
        Err(CommandError::InvalidCommand)
    } else {
        match f[0] {
            FlagV::PositionalArg(a) => Ok(CommandV::AddColumn(a[0])),
            FlagV::Flag(c) => Ok(CommandV::RemoveColumn(c)),
            FlagV::FlagWithArgument(_, _) => Err(CommandError::InvalidCommand),
        }
    }
}

/// A search of `column` for `text`, given as two arguments.
pub open spec fn find_with(m: Matching, a: Seq<Seq<char>>) -> Result<CommandV, CommandError> {
    if a.len() < 2 {
        Err(CommandError::InsufficientArguments)
    } else {
        Ok(CommandV::FindMatches(m, a[0], a[1]))
    }
}

/// `!f column text`, `!f -r column pattern` or `!f -c column text`.
pub open spec fn find_spec(f: Seq<FlagV>) -> Result<CommandV, CommandError> {
    if f.len() == 0 {
        Err(CommandError::InvalidCommand)
    } else {
        match f[0] {
            FlagV::PositionalArg(a) => find_with(Matching::Default, a),
            FlagV::FlagWithArgument(c, a) => if c == seq!['r'] {
                find_with(Matching::Regex, a)
            } else if c == seq!['c'] {
                find_with(Matching::CaseSensitive, a)
            } else {
                Err(CommandError::InvalidCommand)
            },
            FlagV::Flag(_) => Err(CommandError::InvalidCommand),
        }
    }
}

/// The command a whole command line (the command name first) denotes.
pub open spec fn parse_args_spec(args: Seq<Seq<char>>) -> Result<CommandV, CommandError> {
    if args.len() == 0 {
        Err(CommandError::InsufficientArguments)
    } else {
        let c = args[0];
        let f = read_flags_spec(args);
        if c == seq!['!', 'q'] {
            Ok(CommandV::Quit)
        } else if c == seq!['!', 'w'] {
            Ok(CommandV::Write)
        } else if c == seq!['!', 'w', 'q'] {
            Ok(CommandV::WriteAndQuit)
        } else if c == seq!['!', 'a'] {
            add_scan(f, 0, false, None)
        } else if c == seq!['!', 'd'] {
            delete_spec(f)
        } else if c == seq!['!', 'e'] {
            edit_spec(f)
        } else if c == seq!['!', 'm'] {
            merge_spec(f)
        } else if c == seq!['!', 's'] {
            sort_scan(f, 0, false, None)
        } else if c == seq!['!', 'c'] {
            column_spec(f)
        } else if c == seq!['!', 'f'] {
            find_spec(f)
        } else if c == seq!['!', 'o'] {
            open_scan(f, 0, false, None, None)
        } else {
            Err(CommandError::UnknownCommand)
        }
    }
}

pub open spec fn opt_view(o: Option<String>) -> Option<Seq<char>> {
    match o {
        Some(s) => Some(s@),
        None => None,
    }
}

pub open spec fn result_view(r: Result<Command, CommandError>) -> Result<CommandV, CommandError> {
    match r {
        Ok(c) => Ok(c@),
        Err(e) => Err(e),
    }
}

fn is_word(s: &String, w: &[char]) -> (r: bool)
    ensures
        r == (s@ == w@),
{
    let c = chars_of(s.as_str());
    eq_chars(c.as_slice(), w)
}

fn is_letter(s: &String, l: char) -> (r: bool)
    ensures
        r == (s@ == seq![l]),
{
    let w = [l];
    assert(w@ =~= seq![l]);
    is_word(s, &w)
}

fn u32_of(s: &String) -> (r: Option<u32>)
    ensures
        r == parse_u32(s@),
{
    match parse_decimal(s.as_str(), 4294967295) {
        Some(v) => Some(v as u32),
        None => None,
    }
}

fn usize_of(s: &String) -> (r: Option<usize>)
    ensures
        r == parse_usize(s@),
{
    match parse_decimal(s.as_str(), usize::MAX as u64) {
        Some(v) => Some(v as usize),
        None => None,
    }
}

fn clone_str(s: &String) -> (r: String)
    ensures
        r@ == s@,
{
    s.clone()
}

fn add_from_flags(f: &Vec<Flag>) -> (r: Result<Command, CommandError>)
    requires
        flags_wf(flags_view(f@)),
    ensures
        result_view(r) == add_scan(flags_view(f@), 0, false, None),
{
    let ghost fv = flags_view(f@);
    let mut d = false;
    let mut path: Option<String> = None;
    let mut i: usize = 0;
    while i < f.len()
        invariant
            i <= f@.len(),
            fv == flags_view(f@),
            flags_wf(fv),
            add_scan(fv, 0, false, None) == add_scan(fv, i as int, d, opt_view(path)),
        decreases f.len() - i,
    {
        assert(fv[i as int] == f@[i as int]@);
        match &f[i] {
            Flag::Flag(c) => {
                d = d || is_letter(c, 'd');
                if d && path.is_some() {
                    return Ok(Command::AddBooksFromDir(path.unwrap()));
                }
            },
            Flag::FlagWithArgument(c, a) => {
                d = d || is_letter(c, 'd');
                if d {
                    return Ok(Command::AddBooksFromDir(clone_str(&a[0])));
                }
            },
            Flag::PositionalArg(a) => {
                if path.is_none() {
                    path = Some(clone_str(&a[0]));
                }
                if d {
                    return Ok(Command::AddBooksFromDir(path.unwrap()));
                }
            },
        }
        i = i + 1;
    }
    match path {
        Some(p) => Ok(
            if d {
                Command::AddBooksFromDir(p)
            } else {
                Command::AddBookFromFile(p)
            },
        ),
        None => Err(CommandError::InsufficientArguments),
    }
}

fn sort_from_flags(f: &Vec<Flag>) -> (r: Result<Command, CommandError>)
    requires
        flags_wf(flags_view(f@)),
    ensures
        result_view(r) == sort_scan(flags_view(f@), 0, false, None),
{
    let ghost fv = flags_view(f@);
    let mut d = false;
    let mut col: Option<String> = None;
    let mut i: usize = 0;
    while i < f.len()
        invariant
            i <= f@.len(),
            fv == flags_view(f@),
            flags_wf(fv),
            sort_scan(fv, 0, false, None) == sort_scan(fv, i as int, d, opt_view(col)),
        decreases f.len() - i,
    {
        assert(fv[i as int] == f@[i as int]@);
        match &f[i] {
            Flag::Flag(x) => {
                if is_letter(x, 'd') {
                    if col.is_some() {
                        return Ok(Command::SortColumn(col.unwrap(), true));
                    }
                    d = true;
                }
            },
            Flag::FlagWithArgument(x, a) => {
                d = d || is_letter(x, 'd');
                if d {
                    return Ok(Command::SortColumn(clone_str(&a[0]), true));
                }
            },
            Flag::PositionalArg(a) => {
                if d {
                    return Ok(Command::SortColumn(clone_str(&a[0]), true));
                }
                if col.is_none() {
                    col = Some(clone_str(&a[0]));
                }
            },
        }
        i = i + 1;
    }
    match col {
        Some(c) => Ok(Command::SortColumn(c, d)),
        None => Err(CommandError::InsufficientArguments),
    }
}

fn open_command(explorer: bool, b: BookIndex, v: usize) -> (r: Command)
    ensures
        r@ == open_cmd(explorer, b, v),
{
    if explorer {
        Command::OpenBookInExplorer(b, v)
    } else {
        Command::OpenBookInApp(b, v)
    }
}

fn open_from_flags(f: &Vec<Flag>) -> (r: Result<Command, CommandError>)
    requires
        flags_wf(flags_view(f@)),
    ensures
        result_view(r) == open_scan(flags_view(f@), 0, false, None, None),
{
    let ghost fv = flags_view(f@);
    let mut explorer = false;
    let mut loc: Option<String> = None;
    let mut index: Option<String> = None;
    let mut i: usize = 0;
    while i < f.len()
        invariant
            i <= f@.len(),
            fv == flags_view(f@),
            flags_wf(fv),
            open_scan(fv, 0, false, None, None) == open_scan(
                fv,
                i as int,
                explorer,
                opt_view(loc),
                opt_view(index),
            ),
        decreases f.len() - i,
    {
        assert(fv[i as int] == f@[i as int]@);
        match &f[i] {
            Flag::Flag(c) => {
                explorer = explorer || is_letter(c, 'f');
            },
            Flag::FlagWithArgument(c, a) => {
                if is_letter(c, 'f') && a.len() > 0 {
                    if let Some(bi) = u32_of(&a[0]) {
                        if a.len() > 1 {
                            if let Some(vi) = usize_of(&a[1]) {
                                return Ok(Command::OpenBookInExplorer(BookIndex::BookID(bi), vi));
                            }
                        }
                        return Ok(Command::OpenBookInExplorer(BookIndex::BookID(bi), 0));
                    }
                }
                return Err(CommandError::InvalidCommand);
            },
            Flag::PositionalArg(a) => {
                if a.len() > 0 {
                    loc = Some(clone_str(&a[0]));
                }
                if a.len() > 1 {
                    index = Some(clone_str(&a[1]));
                }
            },
        }
        i = i + 1;
    }
    if let Some(l) = &loc {
        if let Some(b) = u32_of(l) {
            match &index {
                Some(ix) => {
                    if let Some(v) = usize_of(ix) {
                        return Ok(open_command(explorer, BookIndex::BookID(b), v));
                    }
                },
                None => {
                    return Ok(open_command(explorer, BookIndex::BookID(b), 0));
                },
            }
        }
    }
    Ok(open_command(explorer, BookIndex::Selected, 0))
}

fn delete_from_flags(f: &Vec<Flag>) -> (r: Result<Command, CommandError>)
    requires
        flags_wf(flags_view(f@)),
    ensures
        result_view(r) == delete_spec(flags_view(f@)),
{
    if f.len() == 0 {
        return Ok(Command::DeleteBook(BookIndex::Selected));
    }
    assert(flags_view(f@)[0] == f@[0]@);
    match &f[0] {
        Flag::Flag(a) => if is_letter(a, 'a') {
            Ok(Command::DeleteAll)
        } else {
            Err(CommandError::InvalidCommand)
        },
        Flag::PositionalArg(a) => match u32_of(&a[0]) {
            Some(id) => Ok(Command::DeleteBook(BookIndex::BookID(id))),
            None => Err(CommandError::InvalidCommand),
        },
        Flag::FlagWithArgument(_, _) => Err(CommandError::InvalidCommand),
    }
}

fn edit_from_flags(f: &Vec<Flag>) -> (r: Result<Command, CommandError>)
    requires
        flags_wf(flags_view(f@)),
    ensures
        result_view(r) == edit_spec(flags_view(f@)),
{
    if f.len() == 0 {
        return Err(CommandError::InvalidCommand);
    }
    assert(flags_view(f@)[0] == f@[0]@);
    match &f[0] {
        Flag::PositionalArg(a) => {
            if a.len() < 2 {
                return Err(CommandError::InsufficientArguments);
            }
            if a.len() >= 3 {
                if let Some(id) = u32_of(&a[0]) {
                    return Ok(Command::EditBook(BookIndex::BookID(id), clone_str(&a[1]), clone_str(&a[2])));
                }
            }
            Ok(Command::EditBook(BookIndex::Selected, clone_str(&a[0]), clone_str(&a[1])))
        },
        _ => Err(CommandError::InvalidCommand),
    }
}

fn merge_from_flags(f: &Vec<Flag>) -> (r: Result<Command, CommandError>)
    ensures
        result_view(r) == merge_spec(flags_view(f@)),
{
    if f.len() > 0 {
        assert(flags_view(f@)[0] == f@[0]@);
        if let Flag::Flag(a) = &f[0] {
            if is_letter(a, 'a') {
                return Ok(Command::TryMergeAllBooks);
            }
        }
    }
    Err(CommandError::InvalidCommand)
}

fn column_from_flags(f: &Vec<Flag>) -> (r: Result<Command, CommandError>)
    requires
        flags_wf(flags_view(f@)),
    ensures
        result_view(r) == column_spec(flags_view(f@)),
{
    if f.len() == 0 {
        return Err(CommandError::InvalidCommand);
    }
    assert(flags_view(f@)[0] == f@[0]@);
    match &f[0] {
        Flag::PositionalArg(a) => Ok(Command::AddColumn(clone_str(&a[0]))),
        Flag::Flag(c) => Ok(Command::RemoveColumn(clone_str(c))),
        Flag::FlagWithArgument(_, _) => Err(CommandError::InvalidCommand),
    }
}

fn find_with_args(m: Matching, a: &Vec<String>) -> (r: Result<Command, CommandError>)
    ensures
        result_view(r) == find_with(m, strs(a@)),
{
    if a.len() < 2 {
        Err(CommandError::InsufficientArguments)
    } else {
        Ok(Command::FindMatches(m, clone_str(&a[0]), clone_str(&a[1])))
    }
}

fn find_from_flags(f: &Vec<Flag>) -> (r: Result<Command, CommandError>)
    ensures
        result_view(r) == find_spec(flags_view(f@)),
{
    if f.len() == 0 {
        return Err(CommandError::InvalidCommand);
    }
    assert(flags_view(f@)[0] == f@[0]@);
    match &f[0] {
        Flag::PositionalArg(a) => find_with_args(Matching::Default, a),
        Flag::FlagWithArgument(c, a) => if is_letter(c, 'r') {
            find_with_args(Matching::Regex, a)
        } else if is_letter(c, 'c') {
            find_with_args(Matching::CaseSensitive, a)
        } else {
            Err(CommandError::InvalidCommand)
        },
        Flag::Flag(_) => Err(CommandError::InvalidCommand),
    }
}

/// Reads a command line (the command name first) and returns the command it denotes.
pub fn parse_args(args: Vec<String>) -> (r: Result<Command, CommandError>)
    ensures
        result_view(r) == parse_args_spec(strs(args@)),
{
    if args.len() == 0 {
        return Err(CommandError::InsufficientArguments);
    }
    let c = chars_of(args[0].as_str());
    let cs = c.as_slice();
    let flags = read_flags(args);
    assert((&['!', 'q'])@ =~= seq!['!', 'q']);
    assert((&['!', 'w'])@ =~= seq!['!', 'w']);
    assert((&['!', 'w', 'q'])@ =~= seq!['!', 'w', 'q']);
    assert((&['!', 'a'])@ =~= seq!['!', 'a']);
    assert((&['!', 'd'])@ =~= seq!['!', 'd']);
    assert((&['!', 'e'])@ =~= seq!['!', 'e']);
    assert((&['!', 'm'])@ =~= seq!['!', 'm']);
    assert((&['!', 's'])@ =~= seq!['!', 's']);
    assert((&['!', 'c'])@ =~= seq!['!', 'c']);
    assert((&['!', 'f'])@ =~= seq!['!', 'f']);
    assert((&['!', 'o'])@ =~= seq!['!', 'o']);
    if eq_chars(cs, &['!', 'q']) {
        Ok(Command::Quit)
    } else if eq_chars(cs, &['!', 'w']) {
        Ok(Command::Write)
    } else if eq_chars(cs, &['!', 'w', 'q']) {
        Ok(Command::WriteAndQuit)
    } else if eq_chars(cs, &['!', 'a']) {
        add_from_flags(&flags)
    } else if eq_chars(cs, &['!', 'd']) {
        delete_from_flags(&flags)
    } else if eq_chars(cs, &['!', 'e']) {
        edit_from_flags(&flags)
    } else if eq_chars(cs, &['!', 'm']) {
        merge_from_flags(&flags)
    } else if eq_chars(cs, &['!', 's']) {
        sort_from_flags(&flags)
    } else if eq_chars(cs, &['!', 'c']) {
        column_from_flags(&flags)
    } else if eq_chars(cs, &['!', 'f']) {
        find_from_flags(&flags)
    } else if eq_chars(cs, &['!', 'o']) {
        open_from_flags(&flags)
    } else {
        Err(CommandError::UnknownCommand)
    }
}

} // verus!
