use vstd::prelude::*;

use crate::records::{BookID, ColumnIdentifier, ColumnOrder, ColumnV, Edit, EditV, column_of};
use crate::search::{Search, SearchMode, SearchV};
use crate::text::{
    chars_of, copy_string, eq_chars, first_char_is, parse_decimal, parse_unsigned, string_from_chars,
};

verus! {

// ---------------------------------------------------------------------------
// Command types
// ---------------------------------------------------------------------------

/// The book a command applies to.
#[derive(Copy, Clone, Debug, PartialEq, Eq, Structural)]
pub enum BookIndex {
    Selected,
    ID(BookID),
}

/// Why a command could not be parsed.
#[derive(Clone, Debug, PartialEq, Eq)]
pub enum CommandError {
    UnknownCommand,
    InsufficientArguments,
    UnknownFlag,
    UnexpectedArguments,
    ConflictingArguments,
}

/// Where books are added from. Paths are kept as text.
#[derive(Clone, Debug, PartialEq, Eq)]
pub enum Source {
    File(String),
    Dir(String, u8),
    Glob(String),
}

pub ghost enum SourceV {
    File(Seq<char>),
    Dir(Seq<char>, u8),
    Glob(Seq<char>),
}

impl View for Source {
    type V = SourceV;

    open spec fn view(&self) -> SourceV {
        match self {
            Source::File(p) => SourceV::File(p@),
            Source::Dir(p, d) => SourceV::Dir(p@, *d),
            Source::Glob(g) => SourceV::Glob(g@),
        }
    }
}

/// A column to add to or remove from the displayed table.
#[derive(Clone, Debug, PartialEq, Eq)]
pub enum ModifyColumn {
    Remove(String),
    Add(String),
}

pub ghost enum ModifyColumnV {
    Remove(Seq<char>),
    Add(Seq<char>),
}

impl View for ModifyColumn {
    type V = ModifyColumnV;

    open spec fn view(&self) -> ModifyColumnV {
        match self {
            ModifyColumn::Remove(s) => ModifyColumnV::Remove(s@),
            ModifyColumn::Add(s) => ModifyColumnV::Add(s@),
        }
    }
}

/// A parsed command.
#[derive(Clone, Debug, PartialEq, Eq)]
pub enum Command {
    DeleteSelected,
    DeleteMatching(Vec<Search>),
    DeleteAll,
    EditBook(BookIndex, Vec<(ColumnIdentifier, Edit)>),
    AddBooks(Vec<Source>),
    ModifyColumns(Vec<ModifyColumn>),
    SortColumns(Vec<(ColumnIdentifier, ColumnOrder)>),
    OpenBookInApp(BookIndex, usize),
    OpenBookInExplorer(BookIndex, usize),
    TryMergeAllBooks,
    Quit,
    Write,
    WriteAndQuit,
    FilterMatches(Vec<Search>),
    JumpTo(Vec<Search>),
    Help(String),
    GeneralHelp,
}

pub ghost enum CommandV {
    DeleteSelected,
    DeleteMatching(Seq<SearchV>),
    DeleteAll,
    EditBook(BookIndex, Seq<(ColumnV, EditV)>),
    AddBooks(Seq<SourceV>),
    ModifyColumns(Seq<ModifyColumnV>),
    SortColumns(Seq<(ColumnV, ColumnOrder)>),
    OpenBookInApp(BookIndex, usize),
    OpenBookInExplorer(BookIndex, usize),
    TryMergeAllBooks,
    Quit,
    Write,
    WriteAndQuit,
    FilterMatches(Seq<SearchV>),
    JumpTo(Seq<SearchV>),
    Help(Seq<char>),
    GeneralHelp,
}

pub open spec fn searches_view(v: Seq<Search>) -> Seq<SearchV> {
    Seq::new(v.len(), |i: int| v[i]@)
}

pub open spec fn edits_view(v: Seq<(ColumnIdentifier, Edit)>) -> Seq<(ColumnV, EditV)> {
    Seq::new(v.len(), |i: int| (v[i].0@, v[i].1@))
}

pub open spec fn sources_view(v: Seq<Source>) -> Seq<SourceV> {
    Seq::new(v.len(), |i: int| v[i]@)
}

pub open spec fn modify_view(v: Seq<ModifyColumn>) -> Seq<ModifyColumnV> {
    Seq::new(v.len(), |i: int| v[i]@)
}

pub open spec fn sorts_view(v: Seq<(ColumnIdentifier, ColumnOrder)>) -> Seq<(ColumnV, ColumnOrder)> {
    Seq::new(v.len(), |i: int| (v[i].0@, v[i].1))
}

impl View for Command {
    type V = CommandV;

    open spec fn view(&self) -> CommandV {
        match self {
            Command::DeleteSelected => CommandV::DeleteSelected,
            Command::DeleteMatching(m) => CommandV::DeleteMatching(searches_view(m@)),
            Command::DeleteAll => CommandV::DeleteAll,
            Command::EditBook(b, e) => CommandV::EditBook(*b, edits_view(e@)),
            Command::AddBooks(s) => CommandV::AddBooks(sources_view(s@)),
            Command::ModifyColumns(c) => CommandV::ModifyColumns(modify_view(c@)),
            Command::SortColumns(s) => CommandV::SortColumns(sorts_view(s@)),
            Command::OpenBookInApp(b, v) => CommandV::OpenBookInApp(*b, *v),
            Command::OpenBookInExplorer(b, v) => CommandV::OpenBookInExplorer(*b, *v),
            Command::TryMergeAllBooks => CommandV::TryMergeAllBooks,
            Command::Quit => CommandV::Quit,
            Command::Write => CommandV::Write,
            Command::WriteAndQuit => CommandV::WriteAndQuit,
            Command::FilterMatches(m) => CommandV::FilterMatches(searches_view(m@)),
            Command::JumpTo(m) => CommandV::JumpTo(searches_view(m@)),
            Command::Help(s) => CommandV::Help(s@),
            Command::GeneralHelp => CommandV::GeneralHelp,
        }
    }
}

/// Whether a command can only be carried out with a user interface present: it acts on the
/// current selection, or changes what is displayed.
pub open spec fn requires_ui_spec(c: CommandV) -> bool {
    match c {
        CommandV::EditBook(b, _) => b == BookIndex::Selected,
        CommandV::OpenBookInApp(b, _) => b == BookIndex::Selected,
        CommandV::OpenBookInExplorer(b, _) => b == BookIndex::Selected,
        CommandV::DeleteSelected => true,
        CommandV::ModifyColumns(_) => true,
        CommandV::SortColumns(_) => true,
        CommandV::FilterMatches(_) => true,
        _ => false,
    }
}

impl Command {
    pub fn requires_ui(&self) -> (r: bool)
        ensures
            r == requires_ui_spec(self@),
    {
        match self {
            Command::EditBook(b, _) => *b == BookIndex::Selected,
            Command::OpenBookInApp(b, _) => *b == BookIndex::Selected,
            Command::OpenBookInExplorer(b, _) => *b == BookIndex::Selected,
            Command::DeleteSelected => true,
            Command::ModifyColumns(_) => true,
            Command::SortColumns(_) => true,
            Command::FilterMatches(_) => true,
            _ => false,
        }
    }
}

// ---------------------------------------------------------------------------
// Argument views
// ---------------------------------------------------------------------------

pub open spec fn strs(v: Seq<String>) -> Seq<Seq<char>> {
    Seq::new(v.len(), |i: int| v[i]@)
}

pub open spec fn groups(v: Seq<(String, Vec<String>)>) -> Seq<(Seq<char>, Seq<Seq<char>>)> {
    Seq::new(v.len(), |i: int| (v[i].0@, strs(v[i].1@)))
}

pub(crate) fn copy_strings(v: &Vec<String>, from: usize) -> (r: Vec<String>)
    requires
        from <= v@.len(),
    ensures
        strs(r@) == strs(v@).skip(from as int),
{
    let mut r: Vec<String> = Vec::new();
    let mut i = from;
    while i < v.len()
        invariant
            from <= i <= v@.len(),
            strs(r@) =~= strs(v@).subrange(from as int, i as int),
        decreases v.len() - i,
    {
        let ghost prev = strs(r@);
        r.push(copy_string(&v[i]));
        assert(strs(r@) =~= prev.push(v@[i as int]@));
        i = i + 1;
    }
    r
}

// ---------------------------------------------------------------------------
// Splitting arguments into leading arguments and flag groups
// ---------------------------------------------------------------------------

/// Whether an argument is a flag: it begins with '-'.
pub open spec fn is_flag(a: Seq<char>) -> bool {
    a.len() > 0 && a[0] == '-'
}

/// The number of leading arguments that are not flags.
pub open spec fn plain_prefix_len(s: Seq<Seq<char>>) -> nat
    decreases s.len(),
{
    if s.len() > 0 && !is_flag(s[0]) {
        1 + plain_prefix_len(s.drop_first())
    } else {
        0
    }
}

pub proof fn lemma_plain_prefix(s: Seq<Seq<char>>)
    ensures
        plain_prefix_len(s) <= s.len(),
        forall|i: int| 0 <= i < plain_prefix_len(s) ==> !is_flag(#[trigger] s[i]),
        plain_prefix_len(s) < s.len() ==> is_flag(s[plain_prefix_len(s) as int]),
    decreases s.len(),
{
    if s.len() > 0 && !is_flag(s[0]) {
        lemma_plain_prefix(s.drop_first());
        assert forall|i: int| 0 <= i < plain_prefix_len(s) implies !is_flag(#[trigger] s[i]) by {
            if i > 0 {
                assert(s[i] == s.drop_first()[i - 1]);
            }
        }
    }
}

proof fn lemma_plain_prefix_at(s: Seq<Seq<char>>, n: nat)
    requires
        n <= s.len(),
        forall|i: int| 0 <= i < n ==> !is_flag(#[trigger] s[i]),
        n < s.len() ==> is_flag(s[n as int]),
    ensures
        plain_prefix_len(s) == n,
    decreases n,
{
    if n > 0 {
        assert forall|i: int| 0 <= i < n - 1 implies !is_flag(#[trigger] s.drop_first()[i]) by {
            assert(s.drop_first()[i] == s[i + 1]);
        }
        lemma_plain_prefix_at(s.drop_first(), (n - 1) as nat);
    }
}

/// Each flag with the non-flag arguments that follow it.
pub open spec fn flag_groups(s: Seq<Seq<char>>) -> Seq<(Seq<char>, Seq<Seq<char>>)>
    decreases s.len(),
{
    if s.len() == 0 {
        Seq::empty()
    } else {
        let rest = s.drop_first();
        let n = plain_prefix_len(rest);
        proof {
            lemma_plain_prefix(rest);
        }
        seq![(s[0], rest.take(n as int))] + flag_groups(rest.skip(n as int))
    }
}

/// The arguments after the command name, split into the leading non-flag arguments and the
/// flag groups that follow.
pub open spec fn read_args_spec(args: Seq<Seq<char>>) -> (
    Seq<Seq<char>>,
    Seq<(Seq<char>, Seq<Seq<char>>)>,
) {
    if args.len() <= 1 {
        (Seq::empty(), Seq::empty())
    } else {
        let rest = args.drop_first();
        let n = plain_prefix_len(rest);
        (rest.take(n as int), flag_groups(rest.skip(n as int)))
    }
}

/// The index of the first flag in `args[from..]`, or `args.len()`.
fn next_flag(args: &Vec<String>, from: usize) -> (r: usize)
    requires
        from <= args@.len(),
    ensures
        from <= r <= args@.len(),
        plain_prefix_len(strs(args@).skip(from as int)) == r - from,
{
    let mut i = from;
    while i < args.len() && !first_char_is(args[i].as_str(), '-')
        invariant
            from <= i <= args@.len(),
            forall|j: int| from <= j < i ==> !is_flag(#[trigger] strs(args@)[j]),
        decreases args.len() - i,
    {
        i = i + 1;
    }
    proof {
        let s = strs(args@).skip(from as int);
        assert forall|j: int| 0 <= j < i - from implies !is_flag(#[trigger] s[j]) by {
            assert(s[j] == strs(args@)[from + j]);
        }
        lemma_plain_prefix_at(s, (i - from) as nat);
    }
    i
}

fn copy_range(v: &Vec<String>, from: usize, to: usize) -> (r: Vec<String>)
    requires
        from <= to <= v@.len(),
    ensures
        strs(r@) == strs(v@).subrange(from as int, to as int),
{
    let mut r: Vec<String> = Vec::new();
    let mut i = from;
    while i < to
        invariant
            from <= i <= to,
            to <= v@.len(),
            strs(r@) =~= strs(v@).subrange(from as int, i as int),
        decreases to - i,
    {
        let ghost prev = strs(r@);
        r.push(copy_string(&v[i]));
        assert(strs(r@) =~= prev.push(v@[i as int]@));
        i = i + 1;
    }
    r
}

/// Reads a whitespace-split command line (the command name first) and collects the
/// leading arguments and the flag groups.
pub fn read_args(args: &Vec<String>) -> (r: (Vec<String>, Vec<(String, Vec<String>)>))
    ensures
        (strs(r.0@), groups(r.1@)) == read_args_spec(strs(args@)),
{
    let ghost sargs = strs(args@);
    if args.len() <= 1 {
        return (Vec::new(), Vec::new());
    }
    let n = next_flag(args, 1);
    proof {
        assert(sargs.drop_first() =~= sargs.skip(1));
    }
    let start = copy_range(args, 1, n);
    proof {
        assert(strs(start@) =~= sargs.drop_first().take((n - 1) as int));
    }
    let mut trailing: Vec<(String, Vec<String>)> = Vec::new();
    let mut i = n;
    while i < args.len()
        invariant
            n <= i <= args@.len(),
            sargs == strs(args@),
            groups(trailing@) + flag_groups(sargs.skip(i as int)) == flag_groups(
                sargs.skip(n as int),
            ),
        decreases args.len() - i,
    {
        let flag = copy_string(&args[i]);
        let end = next_flag(args, i + 1);
        let flag_args = copy_range(args, i + 1, end);
        proof {
            let s = sargs.skip(i as int);
            assert(s.drop_first() =~= sargs.skip(i + 1));
            assert(s.drop_first().take((end - i - 1) as int) =~= sargs.subrange(
                i + 1,
                end as int,
            ));
            assert(s.drop_first().skip((end - i - 1) as int) =~= sargs.skip(end as int));
            assert(flag_groups(s) == seq![(sargs[i as int], sargs.subrange(i + 1, end as int))]
                + flag_groups(sargs.skip(end as int)));
        }
        trailing.push((flag, flag_args));
        proof {
            assert(groups(trailing@) =~= groups(old_trailing(trailing@)) + seq![
                (sargs[i as int], sargs.subrange(i + 1, end as int)),
            ]);
        }
        i = end;
    }
    proof {
        assert(sargs.skip(args@.len() as int) =~= Seq::<Seq<char>>::empty());
        assert(flag_groups(sargs.skip(args@.len() as int)) =~= Seq::<
            (Seq<char>, Seq<Seq<char>>),
        >::empty());
        assert(groups(trailing@) =~= groups(trailing@) + Seq::<(Seq<char>, Seq<Seq<char>>)>::empty());
        assert(sargs.drop_first().skip((n - 1) as int) =~= sargs.skip(n as int));
        assert(plain_prefix_len(sargs.drop_first()) == n - 1);
    }
    (start, trailing)
}

pub open spec fn old_trailing(v: Seq<(String, Vec<String>)>) -> Seq<(String, Vec<String>)> {
    v.drop_last()
}

} // verus!

verus! {

// ---------------------------------------------------------------------------
// Shared helpers
// ---------------------------------------------------------------------------

fn string_is(s: &String, lit: &[char]) -> (r: bool)
    ensures
        r == (s@ == lit@),
{
    let c = chars_of(s.as_str());
    eq_chars(c.as_slice(), lit)
}

/// A string consisting of a single quote character, which quote removal cannot handle.
pub open spec fn lone_quote(s: Seq<char>) -> bool {
    s.len() == 1 && (s[0] == '"' || s[0] == '\'')
}

/// The text with one pair of matching surrounding quotes (double or single) removed.
pub open spec fn unquote(s: Seq<char>) -> Seq<char> {
    if s.len() >= 2 && ((s[0] == '"' && s.last() == '"') || (s[0] == '\'' && s.last() == '\'')) {
        s.subrange(1, s.len() - 1)
    } else {
        s
    }
}

/// Removes one pair of matching surrounding quotes.
pub fn remove_string_quotes(s: String) -> (r: String)
    requires
        !lone_quote(s@),
    ensures
        r@ == unquote(s@),
{
    let ghost sv = s@;
    let c = chars_of(s.as_str());
    let n = c.len();
    if n >= 1 && ((c[0] == '"' && c[n - 1] == '"') || (c[0] == '\'' && c[n - 1] == '\'')) {
        assert(n >= 2);
        let mut inner: Vec<char> = Vec::new();
        let mut i: usize = 1;
        while i < n - 1
            invariant
                1 <= i <= n - 1,
                n == c@.len(),
                n >= 2,
                inner@ =~= c@.subrange(1, i as int),
            decreases n - i,
        {
            inner.push(c[i]);
            i = i + 1;
        }
        assert(c@.last() == c@[n - 1]);
        assert(unquote(sv) =~= c@.subrange(1, n - 1));
        let r = string_from_chars(inner.as_slice());
        assert(r@ == unquote(sv));
        r
    } else {
        assert(n >= 2 ==> c@.last() == c@[n - 1]);
        assert(unquote(sv) == sv);
        s
    }
}

pub open spec fn search_of(mode: SearchMode, col: Seq<char>, s: Seq<char>) -> SearchV {
    SearchV { mode, column: column_of(col), search: unquote(s) }
}

/// The second element of the `k`-th pair of `s`.
pub open spec fn pair_second(s: Seq<Seq<char>>, k: int) -> Seq<char> {
    s[2 * k + 1]
}

/// Searches read from consecutive (column, search text) pairs, in default mode. `None` when
/// a search text is a lone quote character.
pub open spec fn pair_searches(s: Seq<Seq<char>>) -> Option<Result<Seq<SearchV>, CommandError>> {
    if exists|k: int| 0 <= k < s.len() / 2 && lone_quote(#[trigger] pair_second(s, k)) {
        None
    } else if s.len() % 2 == 1 {
        Some(Err(CommandError::InsufficientArguments))
    } else {
        Some(
            Ok(
                Seq::new(
                    s.len() / 2,
                    |k: int| search_of(SearchMode::Default, s[2 * k], s[2 * k + 1]),
                ),
            ),
        )
    }
}

pub open spec fn mode_of_flag(f: Seq<char>) -> Option<SearchMode> {
    if f == seq!['-', 'r'] {
        Some(SearchMode::Regex)
    } else if f == seq!['-', 'e'] {
        Some(SearchMode::ExactSubstring)
    } else if f == seq!['-', 'x'] {
        Some(SearchMode::ExactString)
    } else {
        None
    }
}

/// The searches of one flag group: the flag sets the mode of the first pair, further pairs
/// use the default mode.
pub open spec fn group_searches(flag: Seq<char>, args: Seq<Seq<char>>) -> Option<
    Result<Seq<SearchV>, CommandError>,
> {
    match mode_of_flag(flag) {
        None => Some(Err(CommandError::UnknownFlag)),
        Some(mode) => if args.len() < 2 {
            Some(Err(CommandError::InsufficientArguments))
        } else if lone_quote(args[1]) {
            None
        } else {
            match pair_searches(args.skip(2)) {
                None => None,
                Some(Err(e)) => Some(Err(e)),
                Some(Ok(v)) => Some(Ok(seq![search_of(mode, args[0], args[1])] + v)),
            }
        },
    }
}

pub open spec fn group_searches_upto(t: Seq<(Seq<char>, Seq<Seq<char>>)>, n: nat) -> Option<
    Result<Seq<SearchV>, CommandError>,
>
    decreases n,
{
    if n == 0 {
        Some(Ok(Seq::empty()))
    } else {
        match group_searches_upto(t, (n - 1) as nat) {
            Some(Ok(acc)) => match group_searches(t[n - 1].0, t[n - 1].1) {
                Some(Ok(v)) => Some(Ok(acc + v)),
                Some(Err(e)) => Some(Err(e)),
                None => None,
            },
            Some(Err(e)) => Some(Err(e)),
            None => None,
        }
    }
}

/// The searches a command's arguments describe: (column, text) pairs, then flag groups
/// `-r` (regex), `-e` (exact substring), `-x` (exact string). At least one is needed.
pub open spec fn matches_spec(start: Seq<Seq<char>>, t: Seq<(Seq<char>, Seq<Seq<char>>)>) -> Option<
    Result<Seq<SearchV>, CommandError>,
> {
    match pair_searches(start) {
        Some(Ok(v)) => match group_searches_upto(t, t.len()) {
            Some(Ok(w)) => if v.len() + w.len() == 0 {
                Some(Err(CommandError::InsufficientArguments))
            } else {
                Some(Ok(v + w))
            },
            Some(Err(e)) => Some(Err(e)),
            None => None,
        },
        Some(Err(e)) => Some(Err(e)),
        None => None,
    }
}

/// Appends the searches of the pairs in `args[from..]`.
fn push_pair_searches(args: &Vec<String>, from: usize, out: &mut Vec<Search>) -> (r: Result<
    (),
    CommandError,
>)
    requires
        from <= args@.len(),
        pair_searches(strs(args@).skip(from as int)) is Some,
    ensures
        match pair_searches(strs(args@).skip(from as int)) {
            Some(Ok(v)) => r is Ok && searches_view(final(out)@) == searches_view(old(out)@) + v,
            Some(Err(e)) => r == Err::<(), CommandError>(e),
            None => false,
        },
{
    let ghost s = strs(args@).skip(from as int);
    let ghost base = searches_view(out@);
    let mut k: usize = 0;
    let mut j: usize = from;
    while args.len() - j >= 2
        invariant
            from <= args@.len(),
            j == from + 2 * k,
            j <= args@.len(),
            s == strs(args@).skip(from as int),
            2 * k <= s.len(),
            pair_searches(s) is Some,
            searches_view(out@) =~= base + Seq::new(
                k as nat,
                |j: int| search_of(SearchMode::Default, s[2 * j], s[2 * j + 1]),
            ),
        decreases args.len() - from - 2 * k,
    {
        let col = &args[j];
        let search = copy_string(&args[j + 1]);
        assert(pair_second(s, k as int) == search@);
        assert(!lone_quote(pair_second(s, k as int)));
        let ghost prev = searches_view(out@);
        out.push(
            Search {
                mode: SearchMode::Default,
                column: ColumnIdentifier::from(col.as_str()),
                search: remove_string_quotes(search),
            },
        );
        assert(searches_view(out@) =~= prev.push(
            search_of(SearchMode::Default, s[2 * k as int], s[2 * k + 1]),
        ));
        k = k + 1;
        j = j + 2;
    }
    if j < args.len() {
        return Err(CommandError::InsufficientArguments);
    }
    Ok(())
}

fn search_mode_of(flag: &String) -> (r: Option<SearchMode>)
    ensures
        r == mode_of_flag(flag@),
{
    if string_is(flag, &['-', 'r']) {
        Some(SearchMode::Regex)
    } else if string_is(flag, &['-', 'e']) {
        Some(SearchMode::ExactSubstring)
    } else if string_is(flag, &['-', 'x']) {
        Some(SearchMode::ExactString)
    } else {
        None
    }
}

/// The searches a command's arguments describe.
pub struct Matches {
    pub matches: Vec<Search>,
}

impl Matches {
    pub fn from_args(start_args: Vec<String>, trailing_args: Vec<(String, Vec<String>)>) -> (r:
        Result<Matches, CommandError>)
        requires
            matches_spec(strs(start_args@), groups(trailing_args@)) is Some,
        ensures
            match matches_spec(strs(start_args@), groups(trailing_args@)) {
                Some(Ok(v)) => r matches Ok(m) && searches_view(m.matches@) == v,
                Some(Err(e)) => r matches Err(e2) && e2 == e,
                None => false,
            },
    {
        let ghost st = strs(start_args@);
        let ghost t = groups(trailing_args@);
        let mut matches: Vec<Search> = Vec::new();
        assert(st.skip(0) =~= st);
        push_pair_searches(&start_args, 0, &mut matches)?;
        let ghost v = searches_view(matches@);
        let mut i: usize = 0;
        while i < trailing_args.len()
            invariant
                i <= trailing_args@.len(),
                t == groups(trailing_args@),
                st == strs(start_args@),
                pair_searches(st) == Some(Ok::<Seq<SearchV>, CommandError>(v)),
                matches_spec(st, t) is Some,
                group_searches_upto(t, i as nat) matches Some(Ok(w)) && searches_view(matches@)
                    == v + w,
            decreases trailing_args.len() - i,
        {
            let ghost w = group_searches_upto(t, i as nat)->Some_0->Ok_0;
            proof {
                lemma_upto_some(t, i as nat);
            }
            let flag = &trailing_args[i].0;
            let args = &trailing_args[i].1;
            assert(t[i as int] == (flag@, strs(args@)));
            let mode = match search_mode_of(flag) {
                Some(m) => m,
                None => {
                    proof {
                        assert(group_searches(t[i as int].0, t[i as int].1) == Some(
                            Err::<Seq<SearchV>, CommandError>(CommandError::UnknownFlag),
                        ));
                        assert(group_searches_upto(t, (i + 1) as nat) == Some(
                            Err::<Seq<SearchV>, CommandError>(CommandError::UnknownFlag),
                        ));
                        lemma_upto_err_stays(t, (i + 1) as nat, CommandError::UnknownFlag);
                    }
                    return Err(CommandError::UnknownFlag);
                },
            };
            if args.len() < 2 {
                proof {
                    assert(group_searches(t[i as int].0, t[i as int].1) == Some(
                        Err::<Seq<SearchV>, CommandError>(CommandError::InsufficientArguments),
                    ));
                    assert(group_searches_upto(t, (i + 1) as nat) == Some(
                        Err::<Seq<SearchV>, CommandError>(CommandError::InsufficientArguments),
                    ));
                    lemma_upto_err_stays(t, (i + 1) as nat, CommandError::InsufficientArguments);
                }
                return Err(CommandError::InsufficientArguments);
            }
            let ghost before = searches_view(matches@);
            let search = copy_string(&args[1]);
            matches.push(
                Search {
                    mode,
                    column: ColumnIdentifier::from(args[0].as_str()),
                    search: remove_string_quotes(search),
                },
            );
            let ghost sa = strs(args@);
            let ghost first = search_of(mode, sa[0], sa[1]);
            assert(searches_view(matches@) =~= before.push(first));
            let ghost mid = searches_view(matches@);
            match push_pair_searches(args, 2, &mut matches) {
                Ok(()) => {},
                Err(e) => {
                    proof {
                        assert(group_searches(t[i as int].0, t[i as int].1) == Some(
                            Err::<Seq<SearchV>, CommandError>(e),
                        ));
                        assert(group_searches_upto(t, (i + 1) as nat) == Some(
                            Err::<Seq<SearchV>, CommandError>(e),
                        ));
                        lemma_upto_err_stays(t, (i + 1) as nat, e);
                    }
                    return Err(e);
                },
            }
            proof {
                let g = group_searches(t[i as int].0, t[i as int].1);
                assert(t[i as int].1 == sa);
                let tail = pair_searches(sa.skip(2))->Some_0->Ok_0;
                assert(searches_view(matches@) == mid + tail);
                assert(g == Some(Ok::<Seq<SearchV>, CommandError>(seq![first] + tail)));
                assert(searches_view(matches@) =~= v + (w + (seq![first] + tail)));
            }
            i = i + 1;
        }
        proof {
            assert(t.len() == trailing_args@.len());
        }
        if matches.len() == 0 {
            return Err(CommandError::InsufficientArguments);
        }
        Ok(Matches { matches })
    }
}

proof fn lemma_upto_some(t: Seq<(Seq<char>, Seq<Seq<char>>)>, n: nat)
    requires
        n < t.len(),
        group_searches_upto(t, t.len()) is Some,
        group_searches_upto(t, n) matches Some(Ok(_)),
    ensures
        group_searches(t[n as int].0, t[n as int].1) is Some,
    decreases t.len() - n,
{
    if group_searches(t[n as int].0, t[n as int].1) is None {
        lemma_upto_none_stays(t, (n + 1) as nat);
    }
}

proof fn lemma_upto_none_stays(t: Seq<(Seq<char>, Seq<Seq<char>>)>, n: nat)
    requires
        n <= t.len(),
        group_searches_upto(t, n) is None,
    ensures
        group_searches_upto(t, t.len()) is None,
    decreases t.len() - n,
{
    if n < t.len() {
        lemma_upto_none_stays(t, (n + 1) as nat);
    }
}

proof fn lemma_upto_err_stays(t: Seq<(Seq<char>, Seq<Seq<char>>)>, n: nat, e: CommandError)
    requires
        n <= t.len(),
        group_searches_upto(t, n) == Some(Err::<Seq<SearchV>, CommandError>(e)),
    ensures
        group_searches_upto(t, t.len()) == Some(Err::<Seq<SearchV>, CommandError>(e)),
    decreases t.len() - n,
{
    if n < t.len() {
        lemma_upto_err_stays(t, (n + 1) as nat, e);
    }
}

} // verus!

verus! {

pub type Groups = Seq<(Seq<char>, Seq<Seq<char>>)>;

/// Lifts a search result to a command result.
pub open spec fn with_searches(
    m: Option<Result<Seq<SearchV>, CommandError>>,
    f: spec_fn(Seq<SearchV>) -> CommandV,
) -> Option<Result<CommandV, CommandError>> {
    match m {
        Some(Ok(v)) => Some(Ok(f(v))),
        Some(Err(e)) => Some(Err(e)),
        None => None,
    }
}

// ---------------------------------------------------------------------------
// :d
// ---------------------------------------------------------------------------

/// `:d` alone deletes the selected book, `:d -a` every book, and otherwise the books
/// matching the searches described.
pub open spec fn delete_spec(start: Seq<Seq<char>>, t: Groups) -> Option<Result<CommandV, CommandError>> {
    if start.len() == 0 && t.len() == 0 {
        Some(Ok(CommandV::DeleteSelected))
    } else if start.len() == 0 && t.len() > 0 && t[0].0 == seq!['-', 'a'] {
        if t[0].1.len() > 0 || t.len() > 1 {
            Some(Err(CommandError::UnexpectedArguments))
        } else {
            Some(Ok(CommandV::DeleteAll))
        }
    } else {
        with_searches(matches_spec(start, t), |m: Seq<SearchV>| CommandV::DeleteMatching(m))
    }
}

fn delete_from_args(start_args: Vec<String>, trailing_args: Vec<(String, Vec<String>)>) -> (r:
    Result<Command, CommandError>)
    requires
        delete_spec(strs(start_args@), groups(trailing_args@)) is Some,
    ensures
        match delete_spec(strs(start_args@), groups(trailing_args@)) {
            Some(Ok(c)) => r matches Ok(cmd) && cmd@ == c,
            Some(Err(e)) => r == Err::<Command, CommandError>(e),
            None => false,
        },
{
    let ghost t = groups(trailing_args@);
    if start_args.len() == 0 && trailing_args.len() == 0 {
        return Ok(Command::DeleteSelected);
    }
    if start_args.len() == 0 && trailing_args.len() > 0 && string_is(
        &trailing_args[0].0,
        &['-', 'a'],
    ) {
        assert(t[0].0 == trailing_args@[0].0@);
        assert(t[0].1.len() == trailing_args@[0].1@.len());
        return if trailing_args[0].1.len() > 0 || trailing_args.len() > 1 {
            Err(CommandError::UnexpectedArguments)
        } else {
            Ok(Command::DeleteAll)
        };
    }
    assert(start_args.len() == 0 && trailing_args.len() > 0 ==> t[0].0 == trailing_args@[0].0@);
    let m = Matches::from_args(start_args, trailing_args)?;
    Ok(Command::DeleteMatching(m.matches))
}

// ---------------------------------------------------------------------------
// :m
// ---------------------------------------------------------------------------

/// The arguments of the last group whose flag is `f`, if any.
pub open spec fn last_args_of(t: Groups, f: Seq<char>) -> Option<Seq<Seq<char>>>
    decreases t.len(),
{
    if t.len() == 0 {
        None
    } else if t.last().0 == f {
        Some(t.last().1)
    } else {
        last_args_of(t.drop_last(), f)
    }
}

/// `:m -a` merges all books with matching metadata. The flag groups are read as a map from
/// flag to arguments, later groups replacing earlier ones with the same flag.
pub open spec fn merge_spec(start: Seq<Seq<char>>, t: Groups) -> Result<CommandV, CommandError> {
    match last_args_of(t, seq!['-', 'a']) {
        Some(a_args) => if start.len() == 0 {
            if a_args.len() > 0 || exists|i: int| 0 <= i < t.len() && #[trigger] t[i].0 != seq!['-', 'a'] {
                Err(CommandError::UnexpectedArguments)
            } else {
                Ok(CommandV::TryMergeAllBooks)
            }
        } else {
            Err(CommandError::ConflictingArguments)
        },
        None => Err(CommandError::ConflictingArguments),
    }
}

fn merge_from_args(start_args: Vec<String>, trailing_args: Vec<(String, Vec<String>)>) -> (r:
    Result<Command, CommandError>)
    ensures
        match merge_spec(strs(start_args@), groups(trailing_args@)) {
            Ok(c) => r matches Ok(cmd) && cmd@ == c,
            Err(e) => r == Err::<Command, CommandError>(e),
        },
{
    let ghost t = groups(trailing_args@);
    let mut found = false;
    let mut a_len: usize = 0;
    let mut other = false;
    let mut i: usize = 0;
    while i < trailing_args.len()
        invariant
            i <= trailing_args@.len(),
            t == groups(trailing_args@),
            found <==> last_args_of(t.take(i as int), seq!['-', 'a']) is Some,
            found ==> last_args_of(t.take(i as int), seq!['-', 'a'])->Some_0.len() == a_len,
            other <==> exists|j: int| 0 <= j < i && #[trigger] t[j].0 != seq!['-', 'a'],
        decreases trailing_args.len() - i,
    {
        let is_a = string_is(&trailing_args[i].0, &['-', 'a']);
        assert(t[i as int].0 == trailing_args@[i as int].0@);
        assert(t.take(i + 1).drop_last() =~= t.take(i as int));
        if is_a {
            found = true;
            a_len = trailing_args[i].1.len();
        } else {
            other = true;
        }
        i = i + 1;
    }
    assert(t.take(trailing_args@.len() as int) =~= t);
    if found && start_args.len() == 0 {
        if a_len > 0 || other {
            Err(CommandError::UnexpectedArguments)
        } else {
            Ok(Command::TryMergeAllBooks)
        }
    } else {
        Err(CommandError::ConflictingArguments)
    }
}

// ---------------------------------------------------------------------------
// :h
// ---------------------------------------------------------------------------

pub open spec fn help_spec(start: Seq<Seq<char>>) -> CommandV {
    if start.len() > 0 {
        CommandV::Help(start[0])
    } else {
        CommandV::GeneralHelp
    }
}

fn help_from_args(start_args: Vec<String>) -> (r: Command)
    ensures
        r@ == help_spec(strs(start_args@)),
{
    if start_args.len() > 0 {
        Command::Help(copy_string(&start_args[0]))
    } else {
        Command::GeneralHelp
    }
}

// ---------------------------------------------------------------------------
// :s
// ---------------------------------------------------------------------------

pub open spec fn ascending_cols(s: Seq<Seq<char>>) -> Seq<(ColumnV, ColumnOrder)> {
    Seq::new(s.len(), |i: int| (column_of(s[i]), ColumnOrder::Ascending))
}

/// One flag group of `:s`: `-d` makes the column named just before it descending, and the
/// columns after it are ascending.
pub open spec fn sort_group(acc: Seq<(ColumnV, ColumnOrder)>, flag: Seq<char>, args: Seq<Seq<char>>) -> Result<
    Seq<(ColumnV, ColumnOrder)>,
    CommandError,
> {
    if flag != seq!['-', 'd'] {
        Err(CommandError::UnknownFlag)
    } else if acc.len() == 0 {
        Err(CommandError::InsufficientArguments)
    } else {
        Ok(acc.drop_last().push((acc.last().0, ColumnOrder::Descending)) + ascending_cols(args))
    }
}

pub open spec fn sort_upto(start: Seq<Seq<char>>, t: Groups, n: nat) -> Result<
    Seq<(ColumnV, ColumnOrder)>,
    CommandError,
>
    decreases n,
{
    if n == 0 {
        Ok(ascending_cols(start))
    } else {
        match sort_upto(start, t, (n - 1) as nat) {
            Ok(acc) => sort_group(acc, t[n - 1].0, t[n - 1].1),
            Err(e) => Err(e),
        }
    }
}

/// `:s` sorts by the columns named, ascending unless a `-d` follows the column; at least one
/// column is needed.
pub open spec fn sort_spec(start: Seq<Seq<char>>, t: Groups) -> Result<CommandV, CommandError> {
    match sort_upto(start, t, t.len()) {
        Ok(v) => if v.len() == 0 {
            Err(CommandError::InsufficientArguments)
        } else {
            Ok(CommandV::SortColumns(v))
        },
        Err(e) => Err(e),
    }
}

proof fn lemma_sort_err_stays(start: Seq<Seq<char>>, t: Groups, n: nat, e: CommandError)
    requires
        n <= t.len(),
        sort_upto(start, t, n) == Err::<Seq<(ColumnV, ColumnOrder)>, CommandError>(e),
    ensures
        sort_upto(start, t, t.len()) == Err::<Seq<(ColumnV, ColumnOrder)>, CommandError>(e),
    decreases t.len() - n,
{
    if n < t.len() {
        lemma_sort_err_stays(start, t, (n + 1) as nat, e);
    }
}

fn push_ascending(args: &Vec<String>, from: usize, out: &mut Vec<(ColumnIdentifier, ColumnOrder)>)
    requires
        from <= args@.len(),
    ensures
        sorts_view(final(out)@) == sorts_view(old(out)@) + ascending_cols(strs(args@).skip(from as int)),
{
    let ghost base = sorts_view(out@);
    let mut i = from;
    while i < args.len()
        invariant
            from <= i <= args@.len(),
            sorts_view(out@) =~= base + ascending_cols(strs(args@).subrange(from as int, i as int)),
        decreases args.len() - i,
    {
        let ghost prev = sorts_view(out@);
        out.push((ColumnIdentifier::from(args[i].as_str()), ColumnOrder::Ascending));
        assert(sorts_view(out@) =~= prev.push((column_of(args@[i as int]@), ColumnOrder::Ascending)));
        i = i + 1;
    }
    assert(strs(args@).subrange(from as int, args@.len() as int) =~= strs(args@).skip(from as int));
}

fn sort_from_args(start_args: Vec<String>, trailing_args: Vec<(String, Vec<String>)>) -> (r:
    Result<Command, CommandError>)
    ensures
        match sort_spec(strs(start_args@), groups(trailing_args@)) {
            Ok(c) => r matches Ok(cmd) && cmd@ == c,
            Err(e) => r == Err::<Command, CommandError>(e),
        },
{
    let ghost st = strs(start_args@);
    let ghost t = groups(trailing_args@);
    let mut sort_cols: Vec<(ColumnIdentifier, ColumnOrder)> = Vec::new();
    assert(st.skip(0) =~= st);
    push_ascending(&start_args, 0, &mut sort_cols);
    let mut i: usize = 0;
    while i < trailing_args.len()
        invariant
            i <= trailing_args@.len(),
            t == groups(trailing_args@),
            st == strs(start_args@),
            sort_upto(st, t, i as nat) == Ok::<Seq<(ColumnV, ColumnOrder)>, CommandError>(
                sorts_view(sort_cols@),
            ),
        decreases trailing_args.len() - i,
    {
        let flag = &trailing_args[i].0;
        let args = &trailing_args[i].1;
        assert(t[i as int] == (flag@, strs(args@)));
        let is_d = string_is(flag, &['-', 'd']);
        assert((&['-', 'd'])@ =~= seq!['-', 'd']);
        let ghost acc = sorts_view(sort_cols@);
        if !is_d {
            proof {
                assert(sort_upto(st, t, (i + 1) as nat) == Err::<
                    Seq<(ColumnV, ColumnOrder)>,
                    CommandError,
                >(CommandError::UnknownFlag));
                lemma_sort_err_stays(st, t, (i + 1) as nat, CommandError::UnknownFlag);
            }
            return Err(CommandError::UnknownFlag);
        }
        match sort_cols.pop() {
            None => {
                proof {
                    assert(acc.len() == 0);
                    assert(sort_upto(st, t, (i + 1) as nat) == Err::<
                        Seq<(ColumnV, ColumnOrder)>,
                        CommandError,
                    >(CommandError::InsufficientArguments));
                    lemma_sort_err_stays(st, t, (i + 1) as nat, CommandError::InsufficientArguments);
                }
                return Err(CommandError::InsufficientArguments);
            },
            Some((col, _)) => {
                proof {
                    assert(acc.len() > 0);
                    assert(sorts_view(sort_cols@) =~= acc.drop_last());
                    assert(col@ == acc.last().0);
                }
                sort_cols.push((col, ColumnOrder::Descending));
                let ghost mid = sorts_view(sort_cols@);
                assert(mid =~= acc.drop_last().push((acc.last().0, ColumnOrder::Descending)));
                assert(strs(args@).skip(0) =~= strs(args@));
                push_ascending(args, 0, &mut sort_cols);
            },
        }
        i = i + 1;
    }
    if sort_cols.len() == 0 {
        Err(CommandError::InsufficientArguments)
    } else {
        Ok(Command::SortColumns(sort_cols))
    }
}

// ---------------------------------------------------------------------------
// :c
// ---------------------------------------------------------------------------

pub open spec fn add_cols(s: Seq<Seq<char>>) -> Seq<ModifyColumnV> {
    Seq::new(s.len(), |i: int| ModifyColumnV::Add(s[i]))
}

pub open spec fn modify_upto(start: Seq<Seq<char>>, t: Groups, n: nat) -> Seq<ModifyColumnV>
    decreases n,
{
    if n == 0 {
        add_cols(start)
    } else {
        modify_upto(start, t, (n - 1) as nat) + seq![ModifyColumnV::Remove(t[n - 1].0.drop_first())]
            + add_cols(t[n - 1].1)
    }
}

/// `:c` adds the plain columns named and removes each column named as a flag.
pub open spec fn modify_spec(start: Seq<Seq<char>>, t: Groups) -> CommandV {
    CommandV::ModifyColumns(modify_upto(start, t, t.len()))
}

/// Every flag of the groups begins with '-'.
pub open spec fn all_flags(t: Groups) -> bool {
    forall|i: int| 0 <= i < t.len() ==> is_flag(#[trigger] t[i].0)
}

fn push_adds(args: &Vec<String>, out: &mut Vec<ModifyColumn>)
    ensures
        modify_view(final(out)@) == modify_view(old(out)@) + add_cols(strs(args@)),
{
    let ghost base = modify_view(out@);
    let mut i: usize = 0;
    while i < args.len()
        invariant
            i <= args@.len(),
            modify_view(out@) =~= base + add_cols(strs(args@).take(i as int)),
        decreases args.len() - i,
    {
        let ghost prev = modify_view(out@);
        out.push(ModifyColumn::Add(copy_string(&args[i])));
        assert(modify_view(out@) =~= prev.push(ModifyColumnV::Add(args@[i as int]@)));
        i = i + 1;
    }
    assert(strs(args@).take(args@.len() as int) =~= strs(args@));
}

fn drop_first_char(s: &String) -> (r: String)
    requires
        s@.len() > 0,
    ensures
        r@ == s@.drop_first(),
{
    let c = chars_of(s.as_str());
    let mut out: Vec<char> = Vec::new();
    let mut i: usize = 1;
    while i < c.len()
        invariant
            1 <= i <= c@.len(),
            c@ == s@,
            out@ =~= c@.subrange(1, i as int),
        decreases c.len() - i,
    {
        out.push(c[i]);
        i = i + 1;
    }
    assert(c@.subrange(1, c@.len() as int) =~= c@.drop_first());
    string_from_chars(out.as_slice())
}

fn modify_from_args(start_args: Vec<String>, trailing_args: Vec<(String, Vec<String>)>) -> (r:
    Command)
    requires
        all_flags(groups(trailing_args@)),
    ensures
        r@ == modify_spec(strs(start_args@), groups(trailing_args@)),
{
    let ghost st = strs(start_args@);
    let ghost t = groups(trailing_args@);
    let mut columns: Vec<ModifyColumn> = Vec::new();
    push_adds(&start_args, &mut columns);
    let mut i: usize = 0;
    while i < trailing_args.len()
        invariant
            i <= trailing_args@.len(),
            t == groups(trailing_args@),
            st == strs(start_args@),
            all_flags(t),
            modify_view(columns@) == modify_upto(st, t, i as nat),
        decreases trailing_args.len() - i,
    {
        let ghost before = modify_view(columns@);
        assert(is_flag(t[i as int].0));
        assert(t[i as int].0 == trailing_args@[i as int].0@);
        columns.push(ModifyColumn::Remove(drop_first_char(&trailing_args[i].0)));
        assert(modify_view(columns@) =~= before.push(
            ModifyColumnV::Remove(trailing_args@[i as int].0@.drop_first()),
        ));
        push_adds(&trailing_args[i].1, &mut columns);
        assert(t[i as int] == (trailing_args@[i as int].0@, strs(trailing_args@[i as int].1@)));
        assert(modify_view(columns@) =~= modify_upto(st, t, (i + 1) as nat));
        i = i + 1;
    }
    Command::ModifyColumns(columns)
}

// ---------------------------------------------------------------------------
// :a
// ---------------------------------------------------------------------------

/// A recursion depth argument: a number up to 255, anything else meaning 255.
pub open spec fn depth_of(s: Seq<char>) -> u8 {
    match parse_unsigned(s, 255) {
        Some(v) => v as u8,
        None => 255,
    }
}

/// The depth directories are searched to when no later `-r` says otherwise: given by a
/// leading `-r` group (255 when it has no argument), else 1.
pub open spec fn global_depth(t: Groups) -> u8 {
    if t.len() > 0 && t[0].0 == seq!['-', 'r'] {
        if t[0].1.len() == 0 {
            255
        } else {
            depth_of(t[0].1[0])
        }
    } else {
        1
    }
}

pub open spec fn files_of(s: Seq<Seq<char>>) -> Seq<SourceV> {
    Seq::new(s.len(), |i: int| SourceV::File(s[i]))
}

pub open spec fn globs_of(s: Seq<Seq<char>>) -> Seq<SourceV> {
    Seq::new(s.len(), |i: int| SourceV::Glob(s[i]))
}

pub open spec fn dirs_of(s: Seq<Seq<char>>, d: u8) -> Seq<SourceV> {
    Seq::new(s.len(), |i: int| SourceV::Dir(s[i], d))
}

pub open spec fn with_depth(x: SourceV, d: u8) -> SourceV {
    match x {
        SourceV::Dir(p, _) => SourceV::Dir(p, d),
        _ => x,
    }
}

/// The sources with every directory from position `from` on given depth `d`.
pub open spec fn redepth(s: Seq<SourceV>, from: int, d: u8) -> Seq<SourceV> {
    Seq::new(s.len(), |i: int| if i >= from { with_depth(s[i], d) } else { s[i] })
}

/// One flag group of `:a`, on the sources so far and the position from which a following
/// `-r` applies: `-g` globs, `-d` directories, `-p` files, `-r [depth] files...` sets the
/// depth of the directories just added and then adds files.
pub open spec fn add_group(
    s: Seq<SourceV>,
    prev: nat,
    flag: Seq<char>,
    args: Seq<Seq<char>>,
    g: u8,
) -> Result<(Seq<SourceV>, nat), CommandError> {
    if flag == seq!['-', 'g'] {
        Ok((s + globs_of(args), s.len() + args.len()))
    } else if flag == seq!['-', 'd'] {
        Ok((s + dirs_of(args, g), s.len()))
    } else if flag == seq!['-', 'r'] {
        if prev >= s.len() {
            Ok((s, prev))
        } else {
            let d: u8 = if args.len() > 0 {
                depth_of(args[0])
            } else {
                255
            };
            let rest = if args.len() > 0 {
                args.skip(1)
            } else {
                args
            };
            Ok((redepth(s, prev as int, d) + files_of(rest), s.len() + rest.len()))
        }
    } else if flag == seq!['-', 'p'] {
        Ok((s + files_of(args), s.len() + args.len()))
    } else {
        Err(CommandError::UnknownFlag)
    }
}

pub open spec fn add_upto(start: Seq<Seq<char>>, t: Groups, n: nat) -> Result<
    (Seq<SourceV>, nat),
    CommandError,
>
    decreases n,
{
    if n == 0 {
        Ok((files_of(start), start.len()))
    } else {
        match add_upto(start, t, (n - 1) as nat) {
            Ok(st) => add_group(st.0, st.1, t[n - 1].0, t[n - 1].1, global_depth(t)),
            Err(e) => Err(e),
        }
    }
}

/// `:a` adds the files named first, then the sources of each flag group in turn.
pub open spec fn add_spec(start: Seq<Seq<char>>, t: Groups) -> Result<CommandV, CommandError> {
    match add_upto(start, t, t.len()) {
        Ok(st) => Ok(CommandV::AddBooks(st.0)),
        Err(e) => Err(e),
    }
}

proof fn lemma_add_err_stays(start: Seq<Seq<char>>, t: Groups, n: nat, e: CommandError)
    requires
        n <= t.len(),
        add_upto(start, t, n) == Err::<(Seq<SourceV>, nat), CommandError>(e),
    ensures
        add_upto(start, t, t.len()) == Err::<(Seq<SourceV>, nat), CommandError>(e),
    decreases t.len() - n,
{
    if n < t.len() {
        lemma_add_err_stays(start, t, (n + 1) as nat, e);
    }
}

fn depth_from(s: &String) -> (r: u8)
    ensures
        r == depth_of(s@),
{
    match parse_decimal(s.as_str(), 255) {
        Some(v) => v as u8,
        None => 255,
    }
}

/// Appends one source per argument of `args[from..]`, made by `kind`: 0 files, 1 globs,
/// 2 directories of depth `d`.
fn push_sources(args: &Vec<String>, from: usize, kind: u8, d: u8, out: &mut Vec<Source>)
    requires
        from <= args@.len(),
    ensures
        final(out)@.len() == old(out)@.len() + args@.len() - from,
        sources_view(final(out)@) == sources_view(old(out)@) + (if kind == 0 {
            files_of(strs(args@).skip(from as int))
        } else if kind == 1 {
            globs_of(strs(args@).skip(from as int))
        } else {
            dirs_of(strs(args@).skip(from as int), d)
        }),
{
    let ghost base = sources_view(out@);
    let ghost rest = strs(args@).skip(from as int);
    let ghost made = if kind == 0 {
        files_of(rest)
    } else if kind == 1 {
        globs_of(rest)
    } else {
        dirs_of(rest, d)
    };
    let mut i = from;
    while i < args.len()
        invariant
            from <= i <= args@.len(),
            rest == strs(args@).skip(from as int),
            made == (if kind == 0 {
                files_of(rest)
            } else if kind == 1 {
                globs_of(rest)
            } else {
                dirs_of(rest, d)
            }),
            sources_view(out@) =~= base + made.take(i - from),
        decreases args.len() - i,
    {
        let ghost prev = sources_view(out@);
        let p = copy_string(&args[i]);
        let src = if kind == 0 {
            Source::File(p)
        } else if kind == 1 {
            Source::Glob(p)
        } else {
            Source::Dir(p, d)
        };
        out.push(src);
        assert(made.take(i + 1 - from) =~= made.take(i - from).push(made[i - from]));
        assert(rest[i - from] == args@[i as int]@);
        assert(sources_view(out@) =~= prev.push(made[i - from]));
        i = i + 1;
    }
    assert(made.len() == rest.len());
    assert(made.take(args@.len() - from) =~= made);
}

/// Gives every directory in `sources[from..]` depth `d`.
fn set_depths(sources: &mut Vec<Source>, from: usize, d: u8)
    requires
        from <= old(sources)@.len(),
    ensures
        final(sources)@.len() == old(sources)@.len(),
        sources_view(final(sources)@) == redepth(sources_view(old(sources)@), from as int, d),
{
    let ghost before = sources_view(sources@);
    let mut j = from;
    while j < sources.len()
        invariant
            from <= j <= sources@.len(),
            sources@.len() == before.len(),
            forall|k: int|
                0 <= k < sources@.len() ==> #[trigger] sources@[k]@ == (if from <= k < j {
                    with_depth(before[k], d)
                } else {
                    before[k]
                }),
        decreases sources.len() - j,
    {
        let replaced = match &sources[j] {
            Source::Dir(p, _) => Some(Source::Dir(copy_string(p), d)),
            _ => None,
        };
        let ghost prev_s = sources@;
        assert(prev_s[j as int]@ == before[j as int]);
        match replaced {
            Some(x) => {
                assert(x@ == with_depth(before[j as int], d));
                sources.set(j, x);
            },
            None => {
                assert(before[j as int] == with_depth(before[j as int], d));
            },
        }
        assert forall|k: int| 0 <= k < sources@.len() implies #[trigger] sources@[k]@ == (if from
            <= k < j + 1 {
            with_depth(before[k], d)
        } else {
            before[k]
        }) by {
            if k != j {
                assert(sources@[k] == prev_s[k]);
            }
        }
        j = j + 1;
    }
    assert(sources_view(sources@) =~= redepth(before, from as int, d));
}

fn add_from_args(start_args: Vec<String>, trailing_args: Vec<(String, Vec<String>)>) -> (r:
    Result<Command, CommandError>)
    ensures
        match add_spec(strs(start_args@), groups(trailing_args@)) {
            Ok(c) => r matches Ok(cmd) && cmd@ == c,
            Err(e) => r == Err::<Command, CommandError>(e),
        },
{
    let ghost st = strs(start_args@);
    let ghost t = groups(trailing_args@);
    let mut sources: Vec<Source> = Vec::new();
    assert(st.skip(0) =~= st);
    push_sources(&start_args, 0, 0, 0, &mut sources);
    let mut prev: usize = sources.len();
    let g: u8 = if trailing_args.len() > 0 && string_is(&trailing_args[0].0, &['-', 'r']) {
        if trailing_args[0].1.len() == 0 {
            255
        } else {
            depth_from(&trailing_args[0].1[0])
        }
    } else {
        1
    };
    assert(trailing_args@.len() > 0 ==> t[0] == (trailing_args@[0].0@, strs(trailing_args@[0].1@)));
    assert(g == global_depth(t));
    let mut i: usize = 0;
    while i < trailing_args.len()
        invariant
            i <= trailing_args@.len(),
            t == groups(trailing_args@),
            st == strs(start_args@),
            g == global_depth(t),
            prev <= sources@.len(),
            add_upto(st, t, i as nat) == Ok::<(Seq<SourceV>, nat), CommandError>(
                (sources_view(sources@), prev as nat),
            ),
        decreases trailing_args.len() - i,
    {
        let flag = &trailing_args[i].0;
        let args = &trailing_args[i].1;
        let ghost s0 = sources_view(sources@);
        let ghost p0 = prev as nat;
        let ghost sa = strs(args@);
        assert(t[i as int] == (flag@, sa));
        assert(add_upto(st, t, (i + 1) as nat) == add_group(s0, p0, flag@, sa, g));
        assert((&['-', 'g'])@ =~= seq!['-', 'g']);
        assert((&['-', 'd'])@ =~= seq!['-', 'd']);
        assert((&['-', 'r'])@ =~= seq!['-', 'r']);
        assert((&['-', 'p'])@ =~= seq!['-', 'p']);
        assert(sa.skip(0) =~= sa);
        if string_is(flag, &['-', 'g']) {
            push_sources(args, 0, 1, 0, &mut sources);
            prev = sources.len();
        } else if string_is(flag, &['-', 'd']) {
            prev = sources.len();
            push_sources(args, 0, 2, g, &mut sources);
        } else if string_is(flag, &['-', 'r']) {
            if prev < sources.len() {
                let d: u8 = if args.len() > 0 {
                    depth_from(&args[0])
                } else {
                    255
                };
                set_depths(&mut sources, prev, d);
                let skip: usize = if args.len() > 0 {
                    1
                } else {
                    0
                };
                assert(sa.skip(skip as int) == (if sa.len() > 0 {
                    sa.skip(1)
                } else {
                    sa
                }));
                push_sources(args, skip, 0, 0, &mut sources);
                prev = sources.len();
            }
        } else if string_is(flag, &['-', 'p']) {
            push_sources(args, 0, 0, 0, &mut sources);
            prev = sources.len();
        } else {
            proof {
                assert(add_upto(st, t, (i + 1) as nat) == Err::<(Seq<SourceV>, nat), CommandError>(
                    CommandError::UnknownFlag,
                ));
                lemma_add_err_stays(st, t, (i + 1) as nat, CommandError::UnknownFlag);
            }
            return Err(CommandError::UnknownFlag);
        }
        assert(add_upto(st, t, (i + 1) as nat) == Ok::<(Seq<SourceV>, nat), CommandError>(
            (sources_view(sources@), prev as nat),
        ));
        i = i + 1;
    }
    Ok(Command::AddBooks(sources))
}

// ---------------------------------------------------------------------------
// :e
// ---------------------------------------------------------------------------

/// Replacing edits read from consecutive (column, value) pairs.
pub open spec fn replace_pairs(s: Seq<Seq<char>>) -> Seq<(ColumnV, EditV)> {
    Seq::new(s.len() / 2, |k: int| (column_of(s[2 * k]), EditV::Replace(s[2 * k + 1])))
}

/// The edit that sets a value: `-a` appends, `-r` replaces.
pub open spec fn value_edit(flag: Seq<char>, v: Seq<char>) -> EditV {
    if flag == seq!['-', 'a'] {
        EditV::Append(v)
    } else {
        EditV::Replace(v)
    }
}

/// The edit a flag group of `:e` begins with, and how many of its arguments it takes:
/// `-d column` deletes, `-a column value` appends, `-r column value` replaces. On the tags
/// column a further argument names the tag.
pub open spec fn lead_edit(flag: Seq<char>, args: Seq<Seq<char>>) -> Result<
    ((ColumnV, EditV), nat),
    CommandError,
> {
    if flag != seq!['-', 'd'] && flag != seq!['-', 'a'] && flag != seq!['-', 'r'] {
        Err(CommandError::UnknownFlag)
    } else if args.len() == 0 {
        Err(CommandError::InsufficientArguments)
    } else {
        let col = column_of(args[0]);
        if flag == seq!['-', 'd'] {
            if col == ColumnV::Tags {
                if args.len() == 1 {
                    Ok(((ColumnV::Tags, EditV::Delete), 1))
                } else {
                    Ok(((ColumnV::ExactTag(args[1]), EditV::Delete), 2))
                }
            } else {
                Ok(((col, EditV::Delete), 1))
            }
        } else if col == ColumnV::Tags {
            if args.len() == 1 {
                Err(CommandError::InsufficientArguments)
            } else if args.len() == 2 {
                Ok(((ColumnV::Tags, value_edit(flag, args[1])), 2))
            } else {
                Ok(((ColumnV::ExactTag(args[1]), value_edit(flag, args[2])), 3))
            }
        } else if args.len() < 2 {
            Err(CommandError::InsufficientArguments)
        } else {
            Ok(((col, value_edit(flag, args[1])), 2))
        }
    }
}

/// The edits of one flag group: the leading edit, then (column, value) pairs to replace.
pub open spec fn edit_group(flag: Seq<char>, args: Seq<Seq<char>>) -> Result<
    Seq<(ColumnV, EditV)>,
    CommandError,
> {
    match lead_edit(flag, args) {
        Err(e) => Err(e),
        Ok(l) => if (args.len() - l.1) % 2 == 1 {
            Err(CommandError::InsufficientArguments)
        } else {
            Ok(seq![l.0] + replace_pairs(args.skip(l.1 as int)))
        },
    }
}

pub open spec fn edit_upto(t: Groups, n: nat) -> Result<Seq<(ColumnV, EditV)>, CommandError>
    decreases n,
{
    if n == 0 {
        Ok(Seq::empty())
    } else {
        match edit_upto(t, (n - 1) as nat) {
            Ok(acc) => match edit_group(t[n - 1].0, t[n - 1].1) {
                Ok(v) => Ok(acc + v),
                Err(e) => Err(e),
            },
            Err(e) => Err(e),
        }
    }
}

/// The leading arguments of `:e`: an odd count begins with the book's ID, the rest are
/// (column, value) pairs to replace.
pub open spec fn edit_start(start: Seq<Seq<char>>) -> Result<
    (BookIndex, Seq<(ColumnV, EditV)>),
    CommandError,
> {
    if start.len() % 2 == 1 {
        match parse_unsigned(start[0], u32::MAX as int) {
            Some(id) => Ok((BookIndex::ID(id as u32), replace_pairs(start.skip(1)))),
            None => Err(CommandError::UnexpectedArguments),
        }
    } else {
        Ok((BookIndex::Selected, replace_pairs(start)))
    }
}

/// `:e` edits the book given by ID, or the selected one; at least one edit is needed.
pub open spec fn edit_spec(start: Seq<Seq<char>>, t: Groups) -> Result<CommandV, CommandError> {
    match edit_start(start) {
        Err(e) => Err(e),
        Ok(s) => match edit_upto(t, t.len()) {
            Err(e) => Err(e),
            Ok(v) => if s.1.len() + v.len() == 0 {
                Err(CommandError::InsufficientArguments)
            } else {
                Ok(CommandV::EditBook(s.0, s.1 + v))
            },
        },
    }
}

proof fn lemma_edit_err_stays(t: Groups, n: nat, e: CommandError)
    requires
        n <= t.len(),
        edit_upto(t, n) == Err::<Seq<(ColumnV, EditV)>, CommandError>(e),
    ensures
        edit_upto(t, t.len()) == Err::<Seq<(ColumnV, EditV)>, CommandError>(e),
    decreases t.len() - n,
{
    if n < t.len() {
        lemma_edit_err_stays(t, (n + 1) as nat, e);
    }
}

/// Appends the replacing edits of the pairs in `args[from..]`.
fn push_replace_pairs(args: &Vec<String>, from: usize, out: &mut Vec<(ColumnIdentifier, Edit)>)
    requires
        from <= args@.len(),
        (args@.len() - from) % 2 == 0,
    ensures
        edits_view(final(out)@) == edits_view(old(out)@) + replace_pairs(
            strs(args@).skip(from as int),
        ),
{
    let ghost s = strs(args@).skip(from as int);
    let ghost base = edits_view(out@);
    let mut k: usize = 0;
    let mut j: usize = from;
    while j < args.len()
        invariant
            from <= args@.len(),
            (args@.len() - from) % 2 == 0,
            j == from + 2 * k,
            j <= args@.len(),
            s == strs(args@).skip(from as int),
            edits_view(out@) =~= base + replace_pairs(s).take(k as int),
        decreases args.len() - j,
    {
        let ghost prev = edits_view(out@);
        out.push(
            (ColumnIdentifier::from(args[j].as_str()), Edit::Replace(copy_string(&args[j + 1]))),
        );
        assert(replace_pairs(s).take(k + 1) =~= replace_pairs(s).take(k as int).push(
            (column_of(s[2 * k as int]), EditV::Replace(s[2 * k + 1])),
        ));
        assert(edits_view(out@) =~= prev.push(
            (column_of(s[2 * k as int]), EditV::Replace(s[2 * k + 1])),
        ));
        k = k + 1;
        j = j + 2;
    }
    assert(replace_pairs(s).take(k as int) =~= replace_pairs(s));
}

fn make_value_edit(append: bool, v: String) -> (r: Edit)
    ensures
        r@ == (if append {
            EditV::Append(v@)
        } else {
            EditV::Replace(v@)
        }),
{
    if append {
        Edit::Append(v)
    } else {
        Edit::Replace(v)
    }
}

fn lead_edit_of(flag: &String, args: &Vec<String>) -> (r: Result<
    ((ColumnIdentifier, Edit), usize),
    CommandError,
>)
    ensures
        match lead_edit(flag@, strs(args@)) {
            Ok(l) => r matches Ok(x) && (x.0.0@, x.0.1@) == l.0 && x.1 == l.1 && x.1
                <= args@.len(),
            Err(e) => r == Err::<((ColumnIdentifier, Edit), usize), CommandError>(e),
        },
{
    let is_d = string_is(flag, &['-', 'd']);
    let is_a = string_is(flag, &['-', 'a']);
    let is_r = string_is(flag, &['-', 'r']);
    assert((&['-', 'd'])@ =~= seq!['-', 'd']);
    assert((&['-', 'a'])@ =~= seq!['-', 'a']);
    assert((&['-', 'r'])@ =~= seq!['-', 'r']);
    if !is_d && !is_a && !is_r {
        return Err(CommandError::UnknownFlag);
    }
    if args.len() == 0 {
        return Err(CommandError::InsufficientArguments);
    }
    let ghost sa = strs(args@);
    let col = ColumnIdentifier::from(args[0].as_str());
    if is_d {
        match col {
            ColumnIdentifier::Tags => if args.len() == 1 {
                Ok(((ColumnIdentifier::Tags, Edit::Delete), 1))
            } else {
                Ok(((ColumnIdentifier::ExactTag(copy_string(&args[1])), Edit::Delete), 2))
            },
            c => Ok(((c, Edit::Delete), 1)),
        }
    } else {
        match col {
            ColumnIdentifier::Tags => if args.len() == 1 {
                Err(CommandError::InsufficientArguments)
            } else if args.len() == 2 {
                Ok(((ColumnIdentifier::Tags, make_value_edit(is_a, copy_string(&args[1]))), 2))
            } else {
                Ok(
                    (
                        (
                            ColumnIdentifier::ExactTag(copy_string(&args[1])),
                            make_value_edit(is_a, copy_string(&args[2])),
                        ),
                        3,
                    ),
                )
            },
            c => if args.len() < 2 {
                Err(CommandError::InsufficientArguments)
            } else {
                Ok(((c, make_value_edit(is_a, copy_string(&args[1]))), 2))
            },
        }
    }
}

fn edit_from_args(start_args: Vec<String>, trailing_args: Vec<(String, Vec<String>)>) -> (r:
    Result<Command, CommandError>)
    ensures
        match edit_spec(strs(start_args@), groups(trailing_args@)) {
            Ok(c) => r matches Ok(cmd) && cmd@ == c,
            Err(e) => r == Err::<Command, CommandError>(e),
        },
{
    let ghost st = strs(start_args@);
    let ghost t = groups(trailing_args@);
    let mut index = BookIndex::Selected;
    let mut from: usize = 0;
    if start_args.len() % 2 == 1 {
        match parse_decimal(start_args[0].as_str(), 4294967295) {
            Some(v) => {
                index = BookIndex::ID(v as u32);
            },
            None => {
                return Err(CommandError::UnexpectedArguments);
            },
        }
        from = 1;
    }
    let mut edits: Vec<(ColumnIdentifier, Edit)> = Vec::new();
    push_replace_pairs(&start_args, from, &mut edits);
    proof {
        assert(st.skip(0) =~= st);
    }
    let ghost e0 = edits_view(edits@);
    assert(edit_start(st) == Ok::<(BookIndex, Seq<(ColumnV, EditV)>), CommandError>((index, e0)));
    let mut i: usize = 0;
    while i < trailing_args.len()
        invariant
            i <= trailing_args@.len(),
            t == groups(trailing_args@),
            st == strs(start_args@),
            edit_start(st) == Ok::<(BookIndex, Seq<(ColumnV, EditV)>), CommandError>(
                (index, e0),
            ),
            edit_upto(t, i as nat) matches Ok(w) && edits_view(edits@) == e0 + w,
        decreases trailing_args.len() - i,
    {
        let ghost w = edit_upto(t, i as nat)->Ok_0;
        let flag = &trailing_args[i].0;
        let args = &trailing_args[i].1;
        let ghost sa = strs(args@);
        assert(t[i as int] == (flag@, sa));
        let lead = match lead_edit_of(flag, args) {
            Ok(l) => l,
            Err(e) => {
                proof {
                    assert(edit_upto(t, (i + 1) as nat) == Err::<
                        Seq<(ColumnV, EditV)>,
                        CommandError,
                    >(e));
                    lemma_edit_err_stays(t, (i + 1) as nat, e);
                }
                return Err(e);
            },
        };
        let used = lead.1;
        if (args.len() - used) % 2 == 1 {
            proof {
                assert(edit_upto(t, (i + 1) as nat) == Err::<Seq<(ColumnV, EditV)>, CommandError>(
                    CommandError::InsufficientArguments,
                ));
                lemma_edit_err_stays(t, (i + 1) as nat, CommandError::InsufficientArguments);
            }
            return Err(CommandError::InsufficientArguments);
        }
        let ghost before = edits_view(edits@);
        let ghost first = (lead.0.0@, lead.0.1@);
        edits.push(lead.0);
        assert(edits_view(edits@) =~= before.push(first));
        push_replace_pairs(args, used, &mut edits);
        proof {
            let g = seq![first] + replace_pairs(sa.skip(used as int));
            assert(edit_group(flag@, sa) == Ok::<Seq<(ColumnV, EditV)>, CommandError>(g));
            assert(edit_upto(t, (i + 1) as nat) == Ok::<Seq<(ColumnV, EditV)>, CommandError>(
                w + g,
            ));
            assert(edits_view(edits@) =~= e0 + (w + g));
        }
        i = i + 1;
    }
    if edits.len() == 0 {
        return Err(CommandError::InsufficientArguments);
    }
    Ok(Command::EditBook(index, edits))
}

// ---------------------------------------------------------------------------
// :o
// ---------------------------------------------------------------------------

/// A book ID argument as `:o` reads it: the book with that ID, anything else the selection.
pub open spec fn index_arg(s: Seq<char>) -> BookIndex {
    match parse_unsigned(s, u32::MAX as int) {
        Some(id) => BookIndex::ID(id as u32),
        None => BookIndex::Selected,
    }
}

/// A variant index argument: a number, anything else meaning 0.
pub open spec fn variant_arg(s: Seq<char>) -> usize {
    match parse_unsigned(s, usize::MAX as int) {
        Some(v) => v as usize,
        None => 0,
    }
}

/// The state `:o` builds: the book, the variant, and whether to open the file manager.
pub type OpenState = (BookIndex, usize, bool);

pub open spec fn open_start(start: Seq<Seq<char>>) -> OpenState {
    (
        if start.len() > 0 {
            index_arg(start[0])
        } else {
            BookIndex::Selected
        },
        if start.len() > 1 {
            variant_arg(start[1])
        } else {
            0
        },
        false,
    )
}

/// One flag group of `:o`: only `-f` (open in the file manager) is known; its arguments may
/// name the book and variant when the leading arguments did not.
pub open spec fn open_group(s: OpenState, flag: Seq<char>, args: Seq<Seq<char>>) -> Result<
    OpenState,
    CommandError,
> {
    if flag != seq!['-', 'f'] {
        Err(CommandError::UnknownFlag)
    } else if args.len() == 0 {
        Ok((s.0, s.1, true))
    } else if s.0 != BookIndex::Selected {
        Err(CommandError::ConflictingArguments)
    } else {
        match parse_unsigned(args[0], u32::MAX as int) {
            Some(id) => Ok(
                (
                    BookIndex::ID(id as u32),
                    if args.len() > 1 {
                        variant_arg(args[1])
                    } else {
                        0
                    },
                    true,
                ),
            ),
            None => Ok((s.0, s.1, true)),
        }
    }
}

pub open spec fn open_upto(start: Seq<Seq<char>>, t: Groups, n: nat) -> Result<
    OpenState,
    CommandError,
>
    decreases n,
{
    if n == 0 {
        Ok(open_start(start))
    } else {
        match open_upto(start, t, (n - 1) as nat) {
            Ok(s) => open_group(s, t[n - 1].0, t[n - 1].1),
            Err(e) => Err(e),
        }
    }
}

/// `:o [id [variant]] [-f [id [variant]]]` opens a book in its application, or with `-f` in
/// the file manager.
pub open spec fn open_spec(start: Seq<Seq<char>>, t: Groups) -> Result<CommandV, CommandError> {
    match open_upto(start, t, t.len()) {
        Ok(s) => Ok(
            if s.2 {
                CommandV::OpenBookInExplorer(s.0, s.1)
            } else {
                CommandV::OpenBookInApp(s.0, s.1)
            },
        ),
        Err(e) => Err(e),
    }
}

proof fn lemma_open_err_stays(start: Seq<Seq<char>>, t: Groups, n: nat, e: CommandError)
    requires
        n <= t.len(),
        open_upto(start, t, n) == Err::<OpenState, CommandError>(e),
    ensures
        open_upto(start, t, t.len()) == Err::<OpenState, CommandError>(e),
    decreases t.len() - n,
{
    if n < t.len() {
        lemma_open_err_stays(start, t, (n + 1) as nat, e);
    }
}

fn index_from(s: &String) -> (r: BookIndex)
    ensures
        r == index_arg(s@),
{
    match parse_decimal(s.as_str(), 4294967295) {
        Some(v) => BookIndex::ID(v as u32),
        None => BookIndex::Selected,
    }
}

fn variant_from(s: &String) -> (r: usize)
    ensures
        r == variant_arg(s@),
{
    match parse_decimal(s.as_str(), usize::MAX as u64) {
        Some(v) => v as usize,
        None => 0,
    }
}

fn open_from_args(start_args: Vec<String>, trailing_args: Vec<(String, Vec<String>)>) -> (r:
    Result<Command, CommandError>)
    ensures
        match open_spec(strs(start_args@), groups(trailing_args@)) {
            Ok(c) => r matches Ok(cmd) && cmd@ == c,
            Err(e) => r == Err::<Command, CommandError>(e),
        },
{
    let ghost st = strs(start_args@);
    let ghost t = groups(trailing_args@);
    let mut book_index = if start_args.len() > 0 {
        index_from(&start_args[0])
    } else {
        BookIndex::Selected
    };
    let mut variant_index: usize = if start_args.len() > 1 {
        variant_from(&start_args[1])
    } else {
        0
    };
    let mut explorer = false;
    assert(open_upto(st, t, 0) == Ok::<OpenState, CommandError>(
        (book_index, variant_index, explorer),
    ));
    let mut i: usize = 0;
    while i < trailing_args.len()
        invariant
            i <= trailing_args@.len(),
            t == groups(trailing_args@),
            st == strs(start_args@),
            open_upto(st, t, i as nat) == Ok::<OpenState, CommandError>(
                (book_index, variant_index, explorer),
            ),
        decreases trailing_args.len() - i,
    {
        let flag = &trailing_args[i].0;
        let args = &trailing_args[i].1;
        let ghost s0: OpenState = (book_index, variant_index, explorer);
        assert(t[i as int] == (flag@, strs(args@)));
        assert(open_upto(st, t, (i + 1) as nat) == open_group(s0, flag@, strs(args@)));
        let is_f = string_is(flag, &['-', 'f']);
        assert((&['-', 'f'])@ =~= seq!['-', 'f']);
        if !is_f {
            proof {
                lemma_open_err_stays(st, t, (i + 1) as nat, CommandError::UnknownFlag);
            }
            return Err(CommandError::UnknownFlag);
        }
        explorer = true;
        if args.len() > 0 {
            if book_index != BookIndex::Selected {
                proof {
                    lemma_open_err_stays(st, t, (i + 1) as nat, CommandError::ConflictingArguments);
                }
                return Err(CommandError::ConflictingArguments);
            }
            match parse_decimal(args[0].as_str(), 4294967295) {
                Some(bi) => {
                    let vi: usize = if args.len() > 1 {
                        variant_from(&args[1])
                    } else {
                        0
                    };
                    book_index = BookIndex::ID(bi as u32);
                    variant_index = vi;
                },
                None => {},
            }
        }
        i = i + 1;
    }
    if explorer {
        Ok(Command::OpenBookInExplorer(book_index, variant_index))
    } else {
        Ok(Command::OpenBookInApp(book_index, variant_index))
    }
}

// ---------------------------------------------------------------------------
// Commands
// ---------------------------------------------------------------------------

/// The command a command line names.
#[derive(Copy, Clone, Debug, PartialEq, Eq, Structural)]
pub enum CommandRoot {
    Delete,
    Edit,
    AddBooks,
    ModifyColumns,
    SortColumns,
    OpenBook,
    MergeBooks,
    Quit,
    Write,
    WriteQuit,
    FindMatches,
    JumpTo,
    Help,
}

/// The command a name denotes.
pub open spec fn root_of(s: Seq<char>) -> Option<CommandRoot> {
    if s == seq![':', 'd'] {
        Some(CommandRoot::Delete)
    } else if s == seq![':', 'e'] {
        Some(CommandRoot::Edit)
    } else if s == seq![':', 'a'] {
        Some(CommandRoot::AddBooks)
    } else if s == seq![':', 'c'] {
        Some(CommandRoot::ModifyColumns)
    } else if s == seq![':', 's'] {
        Some(CommandRoot::SortColumns)
    } else if s == seq![':', 'o'] {
        Some(CommandRoot::OpenBook)
    } else if s == seq![':', 'm'] {
        Some(CommandRoot::MergeBooks)
    } else if s == seq![':', 'q'] {
        Some(CommandRoot::Quit)
    } else if s == seq![':', 'w'] {
        Some(CommandRoot::Write)
    } else if s == seq![':', 'w', 'q'] {
        Some(CommandRoot::WriteQuit)
    } else if s == seq![':', 'f'] {
        Some(CommandRoot::FindMatches)
    } else if s == seq![':', 'j'] {
        Some(CommandRoot::JumpTo)
    } else if s == seq![':', 'h'] {
        Some(CommandRoot::Help)
    } else {
        None
    }
}

/// The command `root` makes of its arguments. `None` where reading them cannot complete: a
/// search text that is a lone quote character, or, for `:c`, a flag group whose flag does not
/// begin with '-' (which `read_args` never produces).
pub open spec fn command_spec(root: CommandRoot, start: Seq<Seq<char>>, t: Groups) -> Option<
    Result<CommandV, CommandError>,
> {
    match root {
        CommandRoot::Delete => delete_spec(start, t),
        CommandRoot::Edit => Some(edit_spec(start, t)),
        CommandRoot::AddBooks => Some(add_spec(start, t)),
        CommandRoot::ModifyColumns => if all_flags(t) {
            Some(Ok(modify_spec(start, t)))
        } else {
            None
        },
        CommandRoot::SortColumns => Some(sort_spec(start, t)),
        CommandRoot::OpenBook => Some(open_spec(start, t)),
        CommandRoot::MergeBooks => Some(merge_spec(start, t)),
        CommandRoot::Quit => Some(Ok(CommandV::Quit)),
        CommandRoot::Write => Some(Ok(CommandV::Write)),
        CommandRoot::WriteQuit => Some(Ok(CommandV::WriteAndQuit)),
        CommandRoot::FindMatches => with_searches(
            matches_spec(start, t),
            |m: Seq<SearchV>| CommandV::FilterMatches(m),
        ),
        CommandRoot::JumpTo => with_searches(
            matches_spec(start, t),
            |m: Seq<SearchV>| CommandV::JumpTo(m),
        ),
        CommandRoot::Help => Some(Ok(help_spec(start))),
    }
}

/// What a whole command line parses to.
pub open spec fn parse_args_spec(args: Seq<Seq<char>>) -> Option<Result<CommandV, CommandError>> {
    if args.len() == 0 {
        Some(Err(CommandError::InsufficientArguments))
    } else {
        match root_of(args[0]) {
            None => Some(Err(CommandError::UnknownCommand)),
            Some(root) => {
                let r = read_args_spec(args);
                command_spec(root, r.0, r.1)
            },
        }
    }
}

impl CommandRoot {
    /// The command named `s`.
    pub fn from_str(s: &str) -> (r: Result<CommandRoot, CommandError>)
        ensures
            match root_of(s@) {
                Some(c) => r == Ok::<CommandRoot, CommandError>(c),
                None => r == Err::<CommandRoot, CommandError>(CommandError::UnknownCommand),
            },
    {
        let c = chars_of(s);
        let cs = c.as_slice();
        assert((&[':', 'd'])@ =~= seq![':', 'd']);
        assert((&[':', 'e'])@ =~= seq![':', 'e']);
        assert((&[':', 'a'])@ =~= seq![':', 'a']);
        assert((&[':', 'c'])@ =~= seq![':', 'c']);
        assert((&[':', 's'])@ =~= seq![':', 's']);
        assert((&[':', 'o'])@ =~= seq![':', 'o']);
        assert((&[':', 'm'])@ =~= seq![':', 'm']);
        assert((&[':', 'q'])@ =~= seq![':', 'q']);
        assert((&[':', 'w'])@ =~= seq![':', 'w']);
        assert((&[':', 'w', 'q'])@ =~= seq![':', 'w', 'q']);
        assert((&[':', 'f'])@ =~= seq![':', 'f']);
        assert((&[':', 'j'])@ =~= seq![':', 'j']);
        assert((&[':', 'h'])@ =~= seq![':', 'h']);
        if eq_chars(cs, &[':', 'd']) {
            Ok(CommandRoot::Delete)
        } else if eq_chars(cs, &[':', 'e']) {
            Ok(CommandRoot::Edit)
        } else if eq_chars(cs, &[':', 'a']) {
            Ok(CommandRoot::AddBooks)
        } else if eq_chars(cs, &[':', 'c']) {
            Ok(CommandRoot::ModifyColumns)
        } else if eq_chars(cs, &[':', 's']) {
            Ok(CommandRoot::SortColumns)
        } else if eq_chars(cs, &[':', 'o']) {
            Ok(CommandRoot::OpenBook)
        } else if eq_chars(cs, &[':', 'm']) {
            Ok(CommandRoot::MergeBooks)
        } else if eq_chars(cs, &[':', 'q']) {
            Ok(CommandRoot::Quit)
        } else if eq_chars(cs, &[':', 'w']) {
            Ok(CommandRoot::Write)
        } else if eq_chars(cs, &[':', 'w', 'q']) {
            Ok(CommandRoot::WriteQuit)
        } else if eq_chars(cs, &[':', 'f']) {
            Ok(CommandRoot::FindMatches)
        } else if eq_chars(cs, &[':', 'j']) {
            Ok(CommandRoot::JumpTo)
        } else if eq_chars(cs, &[':', 'h']) {
            Ok(CommandRoot::Help)
        } else {
            Err(CommandError::UnknownCommand)
        }
    }

    /// The command this root makes of its leading arguments and flag groups.
    pub fn into_command(self, start_args: Vec<String>, trailing_args: Vec<(String, Vec<String>)>) -> (r:
        Result<Command, CommandError>)
        requires
            command_spec(self, strs(start_args@), groups(trailing_args@)) is Some,
        ensures
            match command_spec(self, strs(start_args@), groups(trailing_args@)) {
                Some(Ok(c)) => r matches Ok(cmd) && cmd@ == c,
                Some(Err(e)) => r == Err::<Command, CommandError>(e),
                None => false,
            },
    {
        match self {
            CommandRoot::Delete => delete_from_args(start_args, trailing_args),
            CommandRoot::Edit => edit_from_args(start_args, trailing_args),
            CommandRoot::AddBooks => add_from_args(start_args, trailing_args),
            CommandRoot::ModifyColumns => Ok(modify_from_args(start_args, trailing_args)),
            CommandRoot::SortColumns => sort_from_args(start_args, trailing_args),
            CommandRoot::OpenBook => open_from_args(start_args, trailing_args),
            CommandRoot::MergeBooks => merge_from_args(start_args, trailing_args),
            CommandRoot::Quit => Ok(Command::Quit),
            CommandRoot::Write => Ok(Command::Write),
            CommandRoot::WriteQuit => Ok(Command::WriteAndQuit),
            CommandRoot::FindMatches => match Matches::from_args(start_args, trailing_args) {
                Ok(m) => Ok(Command::FilterMatches(m.matches)),
                Err(e) => Err(e),
            },
            CommandRoot::JumpTo => match Matches::from_args(start_args, trailing_args) {
                Ok(m) => Ok(Command::JumpTo(m.matches)),
                Err(e) => Err(e),
            },
            CommandRoot::Help => Ok(help_from_args(start_args)),
        }
    }
}

/// The flag groups of a sequence that is empty or begins with a flag all have flags.
pub proof fn lemma_flag_groups_flags(s: Seq<Seq<char>>)
    requires
        s.len() == 0 || is_flag(s[0]),
    ensures
        all_flags(flag_groups(s)),
    decreases s.len(),
{
    if s.len() > 0 {
        let rest = s.drop_first();
        let n = plain_prefix_len(rest);
        lemma_plain_prefix(rest);
        lemma_flag_groups_flags(rest.skip(n as int));
        let g = flag_groups(s);
        let tail = flag_groups(rest.skip(n as int));
        assert(g == seq![(s[0], rest.take(n as int))] + tail);
        assert forall|i: int| 0 <= i < g.len() implies is_flag(#[trigger] g[i].0) by {
            if i > 0 {
                assert(g[i] == tail[i - 1]);
            }
        }
    }
}

/// The flag groups `read_args` produces all have flags.
pub proof fn lemma_read_args_flags(args: Seq<Seq<char>>)
    ensures
        all_flags(read_args_spec(args).1),
{
    if args.len() > 1 {
        let rest = args.drop_first();
        let n = plain_prefix_len(rest);
        lemma_plain_prefix(rest);
        lemma_flag_groups_flags(rest.skip(n as int));
    }
}

/// Reads a command line (the command name first) and returns the command it denotes.
pub fn parse_args(args: Vec<String>) -> (r: Result<Command, CommandError>)
    requires
        parse_args_spec(strs(args@)) is Some,
    ensures
        match parse_args_spec(strs(args@)) {
            Some(Ok(c)) => r matches Ok(cmd) && cmd@ == c,
            Some(Err(e)) => r == Err::<Command, CommandError>(e),
            None => false,
        },
{
    if args.len() == 0 {
        return Err(CommandError::InsufficientArguments);
    }
    let root = match CommandRoot::from_str(args[0].as_str()) {
        Ok(c) => c,
        Err(e) => {
            return Err(e);
        },
    };
    let (start, trail) = read_args(&args);
    proof {
        lemma_read_args_flags(strs(args@));
    }
    root.into_command(start, trail)
}

// ---------------------------------------------------------------------------
// Whether parsing completes
// ---------------------------------------------------------------------------

fn is_lone_quote(s: &String) -> (r: bool)
    ensures
        r == lone_quote(s@),
{
    let c = chars_of(s.as_str());
    c.len() == 1 && (c[0] == '"' || c[0] == '\'')
}

/// Reads the (column, search text) pairs of `args[from..]`: `None` where a search text is a
/// lone quote, else whether the pairs are complete.
fn pairs_status(args: &Vec<String>, from: usize) -> (r: Option<bool>)
    requires
        from <= args@.len(),
    ensures
        match pair_searches(strs(args@).skip(from as int)) {
            None => r is None,
            Some(Ok(_)) => r == Some(true),
            Some(Err(_)) => r == Some(false),
        },
{
    let ghost s = strs(args@).skip(from as int);
    let mut k: usize = 0;
    let mut j: usize = from;
    while args.len() - j >= 2
        invariant
            from <= j <= args@.len(),
            j == from + 2 * k,
            s == strs(args@).skip(from as int),
            forall|m: int| 0 <= m < k ==> !lone_quote(#[trigger] pair_second(s, m)),
        decreases args.len() - j,
    {
        assert(pair_second(s, k as int) == args@[j + 1]@);
        if is_lone_quote(&args[j + 1]) {
            assert(lone_quote(pair_second(s, k as int)));
            return None;
        }
        k = k + 1;
        j = j + 2;
    }
    assert(s.len() / 2 == k);
    Some(j == args.len())
}

/// Whether reading the searches completes (no search text is a lone quote before an error
/// ends the reading).
fn matches_complete(start: &Vec<String>, trailing: &Vec<(String, Vec<String>)>) -> (r: bool)
    ensures
        r == matches_spec(strs(start@), groups(trailing@)) is Some,
{
    let ghost st = strs(start@);
    let ghost t = groups(trailing@);
    assert(st.skip(0) =~= st);
    match pairs_status(start, 0) {
        None => {
            return false;
        },
        Some(false) => {
            return true;
        },
        Some(true) => {},
    }
    let mut i: usize = 0;
    while i < trailing.len()
        invariant
            i <= trailing@.len(),
            st == strs(start@),
            t == groups(trailing@),
            pair_searches(st) matches Some(Ok(_)),
            group_searches_upto(t, i as nat) matches Some(Ok(_)),
        decreases trailing.len() - i,
    {
        let flag = &trailing[i].0;
        let args = &trailing[i].1;
        let ghost sa = strs(args@);
        assert(t[i as int] == (flag@, sa));
        let mode = search_mode_of(flag);
        if mode.is_none() {
            proof {
                lemma_upto_err_stays(t, (i + 1) as nat, CommandError::UnknownFlag);
            }
            return true;
        }
        if args.len() < 2 {
            proof {
                lemma_upto_err_stays(t, (i + 1) as nat, CommandError::InsufficientArguments);
            }
            return true;
        }
        if is_lone_quote(&args[1]) {
            proof {
                assert(group_searches(flag@, sa) is None);
                lemma_upto_none_stays(t, (i + 1) as nat);
            }
            return false;
        }
        match pairs_status(args, 2) {
            None => {
                proof {
                    assert(group_searches(flag@, sa) is None);
                    lemma_upto_none_stays(t, (i + 1) as nat);
                }
                return false;
            },
            Some(false) => {
                proof {
                    let e = pair_searches(sa.skip(2))->Some_0->Err_0;
                    assert(group_searches(flag@, sa) == Some(Err::<Seq<SearchV>, CommandError>(e)));
                    lemma_upto_err_stays(t, (i + 1) as nat, e);
                }
                return true;
            },
            Some(true) => {},
        }
        i = i + 1;
    }
    true
}

/// Whether `parse_args` completes on `args`: it does unless a search text that is read is a
/// lone quote character.
pub fn parse_args_completes(args: &Vec<String>) -> (r: bool)
    ensures
        r == parse_args_spec(strs(args@)) is Some,
{
    if args.len() == 0 {
        return true;
    }
    let root = match CommandRoot::from_str(args[0].as_str()) {
        Ok(c) => c,
        Err(_) => {
            return true;
        },
    };
    let (start, trail) = read_args(args);
    proof {
        lemma_read_args_flags(strs(args@));
    }
    let ghost t = groups(trail@);
    match root {
        CommandRoot::Delete => {
            if start.len() == 0 && trail.len() == 0 {
                return true;
            }
            if start.len() == 0 && trail.len() > 0 && string_is(&trail[0].0, &['-', 'a']) {
                assert((&['-', 'a'])@ =~= seq!['-', 'a']);
                assert(t[0].0 == trail@[0].0@);
                return true;
            }
            assert((&['-', 'a'])@ =~= seq!['-', 'a']);
            assert(start.len() == 0 && trail.len() > 0 ==> t[0].0 == trail@[0].0@);
            matches_complete(&start, &trail)
        },
        CommandRoot::FindMatches => matches_complete(&start, &trail),
        CommandRoot::JumpTo => matches_complete(&start, &trail),
        _ => true,
    }
}

} // verus!

verus! {

// ---------------------------------------------------------------------------
// Laws of the command language
// ---------------------------------------------------------------------------

proof fn lemma_groups_not_unknown(t: Groups, n: nat)
    requires
        n <= t.len(),
    ensures
        group_searches_upto(t, n) != Some(Err::<Seq<SearchV>, CommandError>(CommandError::UnknownCommand)),
    decreases n,
{
    if n > 0 {
        lemma_groups_not_unknown(t, (n - 1) as nat);
    }
}

proof fn lemma_sort_not_unknown(start: Seq<Seq<char>>, t: Groups, n: nat)
    requires
        n <= t.len(),
    ensures
        sort_upto(start, t, n) != Err::<Seq<(ColumnV, ColumnOrder)>, CommandError>(CommandError::UnknownCommand),
    decreases n,
{
    if n > 0 {
        lemma_sort_not_unknown(start, t, (n - 1) as nat);
    }
}

proof fn lemma_add_not_unknown(start: Seq<Seq<char>>, t: Groups, n: nat)
    requires
        n <= t.len(),
    ensures
        add_upto(start, t, n) != Err::<(Seq<SourceV>, nat), CommandError>(CommandError::UnknownCommand),
    decreases n,
{
    if n > 0 {
        lemma_add_not_unknown(start, t, (n - 1) as nat);
    }
}

proof fn lemma_edit_not_unknown(t: Groups, n: nat)
    requires
        n <= t.len(),
    ensures
        edit_upto(t, n) != Err::<Seq<(ColumnV, EditV)>, CommandError>(CommandError::UnknownCommand),
    decreases n,
{
    if n > 0 {
        lemma_edit_not_unknown(t, (n - 1) as nat);
    }
}

proof fn lemma_open_not_unknown(start: Seq<Seq<char>>, t: Groups, n: nat)
    requires
        n <= t.len(),
    ensures
        open_upto(start, t, n) != Err::<OpenState, CommandError>(CommandError::UnknownCommand),
    decreases n,
{
    if n > 0 {
        lemma_open_not_unknown(start, t, (n - 1) as nat);
    }
}

/// A command's arguments never make the unknown-command error: only its name can.
pub proof fn lemma_command_not_unknown(root: CommandRoot, start: Seq<Seq<char>>, t: Groups)
    ensures
        command_spec(root, start, t) != Some(Err::<CommandV, CommandError>(CommandError::UnknownCommand)),
{
    lemma_groups_not_unknown(t, t.len());
    lemma_sort_not_unknown(start, t, t.len());
    lemma_add_not_unknown(start, t, t.len());
    lemma_edit_not_unknown(t, t.len());
    lemma_open_not_unknown(start, t, t.len());
}

/// Whether a word names a command: one of `:d :e :a :c :s :o :m :q :w :wq :f :j :h`.
pub open spec fn is_command_name(s: Seq<char>) -> bool {
    ||| s == seq![':', 'd']
    ||| s == seq![':', 'e']
    ||| s == seq![':', 'a']
    ||| s == seq![':', 'c']
    ||| s == seq![':', 's']
    ||| s == seq![':', 'o']
    ||| s == seq![':', 'm']
    ||| s == seq![':', 'q']
    ||| s == seq![':', 'w']
    ||| s == seq![':', 'w', 'q']
    ||| s == seq![':', 'f']
    ||| s == seq![':', 'j']
    ||| s == seq![':', 'h']
}

/// Parsing no words is refused for want of arguments; parsing words whose first is not a
/// command name gives the unknown-command error; and a line whose first word is a command
/// name never gives that error.
pub proof fn lemma_parse_args_unknown_command(args: Seq<Seq<char>>)
    ensures
        args.len() == 0 ==> parse_args_spec(args) == Some(
            Err::<CommandV, CommandError>(CommandError::InsufficientArguments),
        ),
        args.len() > 0 && !is_command_name(args[0]) ==> parse_args_spec(args) == Some(
            Err::<CommandV, CommandError>(CommandError::UnknownCommand),
        ),
        (parse_args_spec(args) == Some(Err::<CommandV, CommandError>(CommandError::UnknownCommand)))
            <==> (args.len() > 0 && !is_command_name(args[0])),
{
    if args.len() > 0 {
        match root_of(args[0]) {
            Some(root) => {
                let r = read_args_spec(args);
                lemma_command_not_unknown(root, r.0, r.1);
            },
            None => {},
        }
    }
}

/// The words of a flag group's flag and arguments, in order.
pub open spec fn group_words(t: Groups) -> Seq<Seq<char>>
    decreases t.len(),
{
    if t.len() == 0 {
        Seq::empty()
    } else {
        seq![t[0].0] + t[0].1 + group_words(t.drop_first())
    }
}

proof fn lemma_flag_groups_words(s: Seq<Seq<char>>)
    requires
        s.len() > 0 ==> is_flag(s[0]),
    ensures
        group_words(flag_groups(s)) == s,
        forall|i: int| 0 <= i < flag_groups(s).len() ==> is_flag(#[trigger] flag_groups(s)[i].0),
        forall|i: int, j: int|
            0 <= i < flag_groups(s).len() && 0 <= j < flag_groups(s)[i].1.len() ==> !is_flag(
                #[trigger] flag_groups(s)[i].1[j],
            ),
    decreases s.len(),
{
    if s.len() > 0 {
        let rest = s.drop_first();
        let n = plain_prefix_len(rest);
        lemma_plain_prefix(rest);
        let tail = rest.skip(n as int);
        lemma_flag_groups_words(tail);
        let g = flag_groups(s);
        assert(g == seq![(s[0], rest.take(n as int))] + flag_groups(tail));
        assert(g.drop_first() =~= flag_groups(tail));
        assert(group_words(g) == seq![s[0]] + rest.take(n as int) + group_words(flag_groups(tail)));
        assert(seq![s[0]] + rest.take(n as int) + tail =~= s);
        assert forall|i: int, j: int|
            0 <= i < g.len() && 0 <= j < g[i].1.len() implies !is_flag(#[trigger] g[i].1[j]) by {
            if i > 0 {
                assert(g[i] == flag_groups(tail)[i - 1]);
            } else {
                assert(g[0].1[j] == rest[j]);
            }
        }
        assert forall|i: int| 0 <= i < g.len() implies is_flag(#[trigger] g[i].0) by {
            if i > 0 {
                assert(g[i] == flag_groups(tail)[i - 1]);
            }
        }
    }
}

/// `read_args` keeps every word after the command name, in order: the leading arguments,
/// then each flag group's flag and its arguments. Leading arguments and group arguments are
/// not flags; group names are.
pub proof fn lemma_read_args_keeps_words(args: Seq<Seq<char>>)
    ensures
        args.len() > 0 ==> read_args_spec(args).0 + group_words(read_args_spec(args).1)
            == args.drop_first(),
        forall|i: int|
            0 <= i < read_args_spec(args).0.len() ==> !is_flag(#[trigger] read_args_spec(args).0[i]),
        forall|i: int|
            0 <= i < read_args_spec(args).1.len() ==> is_flag(#[trigger] read_args_spec(args).1[i].0),
        forall|i: int, j: int|
            0 <= i < read_args_spec(args).1.len() && 0 <= j < read_args_spec(args).1[i].1.len()
                ==> !is_flag(#[trigger] read_args_spec(args).1[i].1[j]),
{
    if args.len() > 1 {
        let rest = args.drop_first();
        let n = plain_prefix_len(rest);
        lemma_plain_prefix(rest);
        let tail = rest.skip(n as int);
        lemma_flag_groups_words(tail);
        assert(rest.take(n as int) + tail =~= rest);
        assert forall|i: int| 0 <= i < read_args_spec(args).0.len() implies !is_flag(
            #[trigger] read_args_spec(args).0[i],
        ) by {
            assert(read_args_spec(args).0[i] == rest[i]);
        }
    } else if args.len() == 1 {
        assert(args.drop_first() =~= Seq::<Seq<char>>::empty());
        assert(group_words(Seq::<(Seq<char>, Seq<Seq<char>>)>::empty()) =~= Seq::<Seq<char>>::empty());
    }
}

} // verus!

verus! {

// ---------------------------------------------------------------------------
// Laws of editing commands
// ---------------------------------------------------------------------------

/// `:e -d tags <name>` deletes only the free tag called `<name>` from the selected book;
/// `:e -d tags` deletes every free tag of the selected book.
pub proof fn lemma_delete_tag_command(w: Seq<char>, name: Seq<char>)
    requires
        column_of(w) == ColumnV::Tags,
        !is_flag(name),
    ensures
        parse_args_spec(seq![seq![':', 'e'], seq!['-', 'd'], w, name]) == Some(
            Ok::<CommandV, CommandError>(
                CommandV::EditBook(BookIndex::Selected, seq![(ColumnV::ExactTag(name), EditV::Delete)]),
            ),
        ),
        parse_args_spec(seq![seq![':', 'e'], seq!['-', 'd'], w]) == Some(
            Ok::<CommandV, CommandError>(
                CommandV::EditBook(BookIndex::Selected, seq![(ColumnV::Tags, EditV::Delete)]),
            ),
        ),
{
    assert(w.len() > 0 && !is_flag(w)) by {
        assert(crate::text::ascii_lower_seq(w) == seq!['t', 'a', 'g', 's']);
        assert(crate::text::ascii_lower_seq(w)[0] == 't');
    }
    let d = seq!['-', 'd'];
    assert(is_flag(d));
    let a1 = seq![seq![':', 'e'], d, w, name];
    let a2 = seq![seq![':', 'e'], d, w];
    assert(root_of(seq![':', 'e']) == Some(CommandRoot::Edit));
    // The words after `:e` begin with the flag, so there are no leading words.
    let r1 = a1.drop_first();
    let r2 = a2.drop_first();
    assert(r1 =~= seq![d, w, name]);
    assert(r2 =~= seq![d, w]);
    assert(plain_prefix_len(r1) == 0);
    assert(plain_prefix_len(r2) == 0);
    assert(r1.skip(0) =~= r1);
    assert(r2.skip(0) =~= r2);
    lemma_plain_prefix_at(r1.drop_first(), 2);
    lemma_plain_prefix_at(r2.drop_first(), 1);
    assert(r1.drop_first() =~= seq![w, name]);
    assert(r2.drop_first() =~= seq![w]);
    assert(r1.drop_first().take(2) =~= seq![w, name]);
    assert(r2.drop_first().take(1) =~= seq![w]);
    assert(r1.drop_first().skip(2) =~= Seq::<Seq<char>>::empty());
    assert(r2.drop_first().skip(1) =~= Seq::<Seq<char>>::empty());
    assert(flag_groups(Seq::<Seq<char>>::empty()) =~= Seq::<(Seq<char>, Seq<Seq<char>>)>::empty());
    let g1 = flag_groups(r1);
    let g2 = flag_groups(r2);
    assert(g1 =~= seq![(d, seq![w, name])]);
    assert(g2 =~= seq![(d, seq![w])]);
    assert(read_args_spec(a1) == (Seq::<Seq<char>>::empty(), g1));
    assert(read_args_spec(a2) == (Seq::<Seq<char>>::empty(), g2));
    assert(edit_start(Seq::<Seq<char>>::empty()) == Ok::<(BookIndex, Seq<(ColumnV, EditV)>), CommandError>(
        (BookIndex::Selected, replace_pairs(Seq::<Seq<char>>::empty())),
    ));
    assert(replace_pairs(Seq::<Seq<char>>::empty()) =~= Seq::<(ColumnV, EditV)>::empty());
    assert(seq![w, name].skip(2) =~= Seq::<Seq<char>>::empty());
    assert(seq![w].skip(1) =~= Seq::<Seq<char>>::empty());
    assert(lead_edit(d, seq![w, name]) == Ok::<((ColumnV, EditV), nat), CommandError>(
        ((ColumnV::ExactTag(name), EditV::Delete), 2),
    ));
    assert(lead_edit(d, seq![w]) == Ok::<((ColumnV, EditV), nat), CommandError>(
        ((ColumnV::Tags, EditV::Delete), 1),
    ));
    assert(edit_group(d, seq![w, name]) =~= Ok::<Seq<(ColumnV, EditV)>, CommandError>(
        seq![(ColumnV::ExactTag(name), EditV::Delete)],
    ));
    assert(edit_group(d, seq![w]) =~= Ok::<Seq<(ColumnV, EditV)>, CommandError>(
        seq![(ColumnV::Tags, EditV::Delete)],
    ));
    assert(g1[0] == (d, seq![w, name]));
    assert(g2[0] == (d, seq![w]));
    assert(edit_upto(g1, 0) == Ok::<Seq<(ColumnV, EditV)>, CommandError>(Seq::empty()));
    assert(edit_upto(g2, 0) == Ok::<Seq<(ColumnV, EditV)>, CommandError>(Seq::empty()));
    assert(Seq::<(ColumnV, EditV)>::empty() + seq![(ColumnV::ExactTag(name), EditV::Delete)]
        =~= seq![(ColumnV::ExactTag(name), EditV::Delete)]);
    assert(Seq::<(ColumnV, EditV)>::empty() + seq![(ColumnV::Tags, EditV::Delete)] =~= seq![
        (ColumnV::Tags, EditV::Delete),
    ]);
    assert(edit_upto(g1, 1) =~= Ok::<Seq<(ColumnV, EditV)>, CommandError>(
        seq![(ColumnV::ExactTag(name), EditV::Delete)],
    ));
    assert(edit_upto(g2, 1) =~= Ok::<Seq<(ColumnV, EditV)>, CommandError>(
        seq![(ColumnV::Tags, EditV::Delete)],
    ));
}

} // verus!
