//! Regular expressions kept together with the pattern they were compiled from, so that what
//! a match gives can be said of the pattern and the text.
use vstd::prelude::*;

verus! {

#[verifier::external_type_specification]
#[verifier::external_body]
pub struct ExRegex(regex::Regex);

#[verifier::external_type_specification]
#[verifier::external_body]
pub struct ExRegexError(regex::Error);

#[verifier::external_type_specification]
#[verifier::external_body]
pub struct ExBytesRegex(regex::bytes::Regex);

/// Whether `regex::Regex::new(pattern)` accepts the pattern.
pub uninterp spec fn regex_compiles(pattern: Seq<char>) -> bool;

/// Whether `regex::bytes::Regex::new(pattern)` accepts the pattern.
pub uninterp spec fn bytes_regex_compiles(pattern: Seq<char>) -> bool;

/// Whether the regex compiled from `pattern` matches somewhere in `text`
/// (`regex::Regex::is_match`).
pub uninterp spec fn regex_finds(pattern: Seq<char>, text: Seq<char>) -> bool;

/// The text of capture group `group` of the first match in `text` of the regex compiled from
/// `pattern` (`regex::Regex::captures`).
pub uninterp spec fn regex_group(pattern: Seq<char>, text: Seq<char>, group: usize) -> Option<Seq<char>>;

/// The byte range of capture group `group` of the first match in `text` of the byte regex
/// compiled from `pattern` (`regex::bytes::Regex::captures`).
pub uninterp spec fn bytes_regex_group(pattern: Seq<char>, text: Seq<u8>, group: usize) -> Option<(usize, usize)>;

/// A compiled regex with the pattern it was compiled from. Only `compile` makes one.
#[derive(Debug)]
pub struct CompiledRegex {
    pattern: String,
    regex: regex::Regex,
}

impl View for CompiledRegex {
    type V = Seq<char>;

    /// The pattern it was compiled from.
    closed spec fn view(&self) -> Seq<char> {
        self.pattern@
    }
}

/// A compiled byte regex with the pattern it was compiled from. Only `compile_bytes` makes
/// one.
#[derive(Debug)]
pub struct CompiledBytesRegex {
    pattern: String,
    regex: regex::bytes::Regex,
}

impl View for CompiledBytesRegex {
    type V = Seq<char>;

    /// The pattern it was compiled from.
    closed spec fn view(&self) -> Seq<char> {
        self.pattern@
    }
}

/// Compiles `pattern` with `regex::Regex::new`, keeping the pattern; whether it succeeds
/// depends on the pattern alone.
#[verifier::external_body]
pub(crate) fn compile(pattern: &str) -> (r: Result<CompiledRegex, regex::Error>)
    ensures
        r is Ok <==> regex_compiles(pattern@),
        r matches Ok(c) ==> c@ == pattern@,
{
    match regex::Regex::new(pattern) {
        Ok(regex) => Ok(CompiledRegex { pattern: pattern.to_string(), regex }),
        Err(e) => Err(e),
    }
}

/// Compiles `pattern` with `regex::bytes::Regex::new`, keeping the pattern; whether it
/// succeeds depends on the pattern alone.
#[verifier::external_body]
pub(crate) fn compile_bytes(pattern: &str) -> (r: Result<CompiledBytesRegex, regex::Error>)
    ensures
        r is Ok <==> bytes_regex_compiles(pattern@),
        r matches Ok(c) ==> c@ == pattern@,
{
    match regex::bytes::Regex::new(pattern) {
        Ok(regex) => Ok(CompiledBytesRegex { pattern: pattern.to_string(), regex }),
        Err(e) => Err(e),
    }
}

/// Whether the regex matches somewhere in `text` (`regex::Regex::is_match`): a function of
/// the pattern and the text, named here.
#[verifier::external_body]
pub(crate) fn is_match(re: &CompiledRegex, text: &str) -> (r: bool)
    ensures
        r == regex_finds(re@, text@),
{
    re.regex.is_match(text)
}

/// The text of capture group `group` of the first match of the regex in `text`
/// (`regex::Regex::captures`): named as a function of the pattern, the text and the group;
/// it is a part of the text (the match is a slice of it).
#[verifier::external_body]
pub(crate) fn capture_text(re: &CompiledRegex, text: &str, group: usize) -> (r: Option<String>)
    ensures
        match r {
            Some(s) => regex_group(re@, text@, group) == Some(s@),
            None => regex_group(re@, text@, group) is None,
        },
        r matches Some(s) ==> exists|i: int, j: int|
            0 <= i <= j <= text@.len() && s@ == text@.subrange(i, j),
{
    Some(re.regex.captures(text)?.get(group)?.as_str().to_string())
}

/// The byte range of capture group `group` of the first match of the byte regex in `text`
/// (`regex::bytes::Regex::captures`): named as a function of the pattern, the text and the
/// group; it lies within the text.
#[verifier::external_body]
pub(crate) fn capture_range(re: &CompiledBytesRegex, text: &[u8], group: usize) -> (r: Option<(usize, usize)>)
    ensures
        r == bytes_regex_group(re@, text@, group),
        r matches Some((a, b)) ==> a <= b <= text@.len(),
{
    let m = re.regex.captures(text)?.get(group)?;
    Some((m.start(), m.end()))
}

} // verus!
