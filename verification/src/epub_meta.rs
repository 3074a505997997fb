//! Reading an EPUB's metadata from the events of its package document: the package tag
//! (after an optional declaration), then the metadata tag, then the Dublin Core fields up
//! to the end of the metadata.
use vstd::prelude::*;

use crate::regex_text::{
    bytes_regex_compiles, bytes_regex_group, capture_range, capture_text, compile, compile_bytes,
    regex_compiles, regex_group,
};
use crate::text::{ascii_lower_seq, chars_of, eq_chars, lower_chars};

verus! {

// ---------------------------------------------------------------------------
// Patterns
// ---------------------------------------------------------------------------

/// The pattern that finds the `full-path` attribute of a `rootfile` tag.
pub const ROOT_FILE_PATTERN: &'static str = "(?:<rootfile )(?:[^>]*)(?:full-path=\")([^\"]*)(?:\"[^>]*>)";

/// The pattern of an identifier that starts with an ISBN, after an optional `urn:isbn:`.
pub const ISBN_PATTERN: &'static str = "^(?:urn:isbn:)?([\\d-]+)";

/// Where the path of the package document lies in the container document: the byte range
/// of the `full-path` attribute of its first `rootfile` tag, as the pattern's first group
/// finds it; nothing where the pattern does not compile.
pub fn get_root_file_byte_range(text: &[u8]) -> (r: Option<(usize, usize)>)
    ensures
        r == (if bytes_regex_compiles(ROOT_FILE_PATTERN@) {
            bytes_regex_group(ROOT_FILE_PATTERN@, text@, 1)
        } else {
            None
        }),
        r matches Some((a, b)) ==> a <= b <= text@.len(),
{
    match compile_bytes(ROOT_FILE_PATTERN) {
        Ok(re) => capture_range(&re, text, 1),
        Err(_) => None,
    }
}

/// The ISBN at the start of an identifier, after an optional `urn:isbn:` prefix: a run of
/// digits and dashes, as the pattern's first group finds it; nothing where the pattern does
/// not compile. It is a part of the text.
pub fn get_isbn(text: &str) -> (r: Option<String>)
    ensures
        opt_str(r) == (if regex_compiles(ISBN_PATTERN@) {
            regex_group(ISBN_PATTERN@, text@, 1)
        } else {
            None
        }),
        r matches Some(s) ==> exists|i: int, j: int|
            0 <= i <= j <= text@.len() && s@ == text@.subrange(i, j),
{
    match compile(ISBN_PATTERN) {
        Ok(re) => capture_text(&re, text, 1),
        Err(_) => None,
    }
}

// ---------------------------------------------------------------------------
// Identifier schemes
// ---------------------------------------------------------------------------

/// The scheme of a `dc:identifier`.
#[derive(Copy, Clone, Debug, PartialEq, Eq, Structural)]
pub enum IdentifierScheme {
    Amazon,
    BarnesNoble,
    Calibre,
    EdelWeiss,
    FF,
    GoodReads,
    Google,
    ISBN,
    MOBIASIN,
    SonyBookID,
    URI,
    URL,
    URN,
    UUID,
    Unknown,
}

/// The scheme an `opf:scheme` attribute names, compared without case.
pub open spec fn scheme_named(s: Seq<char>) -> IdentifierScheme {
    let l = ascii_lower_seq(s);
    if l == "amazon"@ {
        IdentifierScheme::Amazon
    } else if l == "barnesnoble"@ {
        IdentifierScheme::BarnesNoble
    } else if l == "calibre"@ {
        IdentifierScheme::Calibre
    } else if l == "edelweiss"@ {
        IdentifierScheme::EdelWeiss
    } else if l == "ff"@ {
        IdentifierScheme::FF
    } else if l == "goodreads"@ {
        IdentifierScheme::GoodReads
    } else if l == "google"@ {
        IdentifierScheme::Google
    } else if l == "isbn"@ {
        IdentifierScheme::ISBN
    } else if l == "mobi-asin"@ {
        IdentifierScheme::MOBIASIN
    } else if l == "sonybookid"@ {
        IdentifierScheme::SonyBookID
    } else if l == "uri"@ {
        IdentifierScheme::URI
    } else if l == "url"@ {
        IdentifierScheme::URL
    } else if l == "urn"@ {
        IdentifierScheme::URN
    } else if l == "uuid"@ {
        IdentifierScheme::UUID
    } else {
        IdentifierScheme::Unknown
    }
}

/// The scheme of an identifier: the one its `opf:scheme` attribute names, else the one its
/// `id` attribute suggests (`uuid_id` or `isbn`, without case).
pub open spec fn scheme_spec(scheme: Option<Seq<char>>, id: Option<Seq<char>>) -> IdentifierScheme {
    match scheme {
        Some(s) => scheme_named(s),
        None => match id {
            Some(v) => if ascii_lower_seq(v) == "uuid_id"@ {
                IdentifierScheme::UUID
            } else if ascii_lower_seq(v) == "isbn"@ {
                IdentifierScheme::ISBN
            } else {
                IdentifierScheme::Unknown
            },
            None => IdentifierScheme::Unknown,
        },
    }
}

fn lower_is(l: &Vec<char>, w: &str) -> (r: bool)
    ensures
        r == (l@ == w@),
{
    let c = chars_of(w);
    eq_chars(l.as_slice(), c.as_slice())
}

fn scheme_of_name(s: &str) -> (r: IdentifierScheme)
    ensures
        r == scheme_named(s@),
{
    let l = lower_chars(s);
    if lower_is(&l, "amazon") {
        IdentifierScheme::Amazon
    } else if lower_is(&l, "barnesnoble") {
        IdentifierScheme::BarnesNoble
    } else if lower_is(&l, "calibre") {
        IdentifierScheme::Calibre
    } else if lower_is(&l, "edelweiss") {
        IdentifierScheme::EdelWeiss
    } else if lower_is(&l, "ff") {
        IdentifierScheme::FF
    } else if lower_is(&l, "goodreads") {
        IdentifierScheme::GoodReads
    } else if lower_is(&l, "google") {
        IdentifierScheme::Google
    } else if lower_is(&l, "isbn") {
        IdentifierScheme::ISBN
    } else if lower_is(&l, "mobi-asin") {
        IdentifierScheme::MOBIASIN
    } else if lower_is(&l, "sonybookid") {
        IdentifierScheme::SonyBookID
    } else if lower_is(&l, "uri") {
        IdentifierScheme::URI
    } else if lower_is(&l, "url") {
        IdentifierScheme::URL
    } else if lower_is(&l, "urn") {
        IdentifierScheme::URN
    } else if lower_is(&l, "uuid") {
        IdentifierScheme::UUID
    } else {
        IdentifierScheme::Unknown
    }
}

/// The scheme of an identifier with the given `opf:scheme` and `id` attributes.
pub fn identifier_scheme(scheme: Option<&str>, id: Option<&str>) -> (r: IdentifierScheme)
    ensures
        r == scheme_spec(
            match scheme {
                Some(s) => Some(s@),
                None => None,
            },
            match id {
                Some(s) => Some(s@),
                None => None,
            },
        ),
{
    match scheme {
        Some(s) => scheme_of_name(s),
        None => match id {
            Some(v) => {
                let l = lower_chars(v);
                if lower_is(&l, "uuid_id") {
                    IdentifierScheme::UUID
                } else if lower_is(&l, "isbn") {
                    IdentifierScheme::ISBN
                } else {
                    IdentifierScheme::Unknown
                }
            },
            None => IdentifierScheme::Unknown,
        },
    }
}

// ---------------------------------------------------------------------------
// The metadata
// ---------------------------------------------------------------------------

/// Why an EPUB's metadata could not be read.
#[derive(Copy, Clone, Debug, PartialEq, Eq, Structural)]
pub enum EpubError {
    BadZip,
    IoError,
    NoContainer,
    NoPackage,
    NoRootFile,
    NoMetadata,
    BadXML,
}

/// The metadata read from an EPUB.
#[derive(Debug)]
pub struct EpubMetadata {
    pub title: Option<String>,
    pub author: Option<String>,
    pub language: Option<String>,
    pub isbn: Option<String>,
    pub description: Option<String>,
}

pub ghost struct MetaV {
    pub title: Option<Seq<char>>,
    pub author: Option<Seq<char>>,
    pub language: Option<Seq<char>>,
    pub isbn: Option<Seq<char>>,
    pub description: Option<Seq<char>>,
}

pub open spec fn opt_str(o: Option<String>) -> Option<Seq<char>> {
    match o {
        Some(s) => Some(s@),
        None => None,
    }
}

impl View for EpubMetadata {
    type V = MetaV;

    open spec fn view(&self) -> MetaV {
        MetaV {
            title: opt_str(self.title),
            author: opt_str(self.author),
            language: opt_str(self.language),
            isbn: opt_str(self.isbn),
            description: opt_str(self.description),
        }
    }
}

/// The field whose text the next text event gives.
#[derive(Copy, Clone, Debug, PartialEq, Eq, Structural)]
pub enum Field {
    Author,
    Title,
    Publisher,
    Identifier(IdentifierScheme),
    Language,
    Description,
    Unrecognized,
}

/// An event of the package document, as an XML reader reports it: tag names and attribute
/// keys and values as text.
#[derive(Debug)]
pub enum XmlEvent {
    /// A start tag, with its attributes.
    Start(String, Vec<(String, String)>),
    End(String),
    Text(String),
    Decl,
    Comment,
    Eof,
    Other,
}

pub enum XmlEventV {
    Start(Seq<char>, Seq<(Seq<char>, Seq<char>)>),
    End(Seq<char>),
    Text(Seq<char>),
    Decl,
    Comment,
    Eof,
    Other,
}

pub open spec fn attrs_view(v: Seq<(String, String)>) -> Seq<(Seq<char>, Seq<char>)> {
    Seq::new(v.len(), |i: int| (v[i].0@, v[i].1@))
}

impl View for XmlEvent {
    type V = XmlEventV;

    open spec fn view(&self) -> XmlEventV {
        match self {
            XmlEvent::Start(n, a) => XmlEventV::Start(n@, attrs_view(a@)),
            XmlEvent::End(n) => XmlEventV::End(n@),
            XmlEvent::Text(t) => XmlEventV::Text(t@),
            XmlEvent::Decl => XmlEventV::Decl,
            XmlEvent::Comment => XmlEventV::Comment,
            XmlEvent::Eof => XmlEventV::Eof,
            XmlEvent::Other => XmlEventV::Other,
        }
    }
}

/// Where reading stands: before the package tag, right after a declaration, before the
/// metadata tag, within the metadata, or done.
#[derive(Copy, Clone, Debug, PartialEq, Eq, Structural)]
pub enum Stage {
    Package,
    AfterDecl,
    Metadata,
    Fields,
    Done,
}

/// The value of the last attribute with key `key`.
pub open spec fn last_attr(a: Seq<(Seq<char>, Seq<char>)>, key: Seq<char>) -> Option<Seq<char>>
    decreases a.len(),
{
    if a.len() == 0 {
        None
    } else if a.last().0 == key {
        Some(a.last().1)
    } else {
        last_attr(a.drop_last(), key)
    }
}

/// The field a start tag opens.
pub open spec fn field_of(name: Seq<char>, a: Seq<(Seq<char>, Seq<char>)>) -> Field {
    if name == "dc:creator"@ {
        Field::Author
    } else if name == "dc:title"@ {
        Field::Title
    } else if name == "dc:identifier"@ {
        Field::Identifier(scheme_spec(last_attr(a, "opf:scheme"@), last_attr(a, "id"@)))
    } else if name == "dc:language"@ {
        Field::Language
    } else if name == "dc:publisher"@ {
        Field::Publisher
    } else if name == "dc:description"@ {
        Field::Description
    } else {
        Field::Unrecognized
    }
}

pub open spec fn is_package(n: Seq<char>) -> bool {
    n == "opf:package"@ || n == "package"@
}

pub open spec fn is_metadata(n: Seq<char>) -> bool {
    n == "metadata"@ || n == "opf:metadata"@
}

/// The reader's state: the stage, the field whose text comes next, and what was read.
pub ghost struct ReaderV {
    pub stage: Stage,
    pub seen: Field,
    pub meta: MetaV,
}

/// The text of an event for field `f`, stored; `isbn` is the ISBN read from the text.
pub open spec fn store(m: MetaV, f: Field, t: Seq<char>, isbn: Option<Seq<char>>) -> MetaV {
    match f {
        Field::Author => MetaV { author: Some(t), ..m },
        Field::Title => MetaV { title: Some(t), ..m },
        Field::Identifier(IdentifierScheme::ISBN) => MetaV { isbn: isbn, ..m },
        Field::Language => MetaV { language: Some(t), ..m },
        Field::Description => MetaV { description: Some(t), ..m },
        _ => m,
    }
}

/// The ISBN `get_isbn` reads from a text: the first group of the ISBN pattern, where the
/// pattern compiles.
pub open spec fn isbn_of_text(t: Seq<char>) -> Option<Seq<char>> {
    if regex_compiles(ISBN_PATTERN@) {
        regex_group(ISBN_PATTERN@, t, 1)
    } else {
        None
    }
}

/// The ISBN read from an event: that of its text, where it is text.
pub open spec fn event_isbn(ev: XmlEventV) -> Option<Seq<char>> {
    match ev {
        XmlEventV::Text(t) => isbn_of_text(t),
        _ => None,
    }
}

/// Reading one event: the state after it, and whether reading is done (or why it failed).
/// The package tag may follow a declaration, text and comments; the metadata tag only
/// comments. Within the metadata a start tag selects the field that following text
/// fills, until the end of the metadata or of the document. `isbn` is the ISBN read from
/// the event's text, where it is text.
pub open spec fn step_spec(r: ReaderV, ev: XmlEventV, isbn: Option<Seq<char>>) -> (ReaderV, Result<bool, EpubError>) {
    match r.stage {
        Stage::Package => match ev {
            XmlEventV::Start(n, _) => if is_package(n) {
                (ReaderV { stage: Stage::Metadata, ..r }, Ok(false))
            } else {
                (r, Err(EpubError::NoPackage))
            },
            XmlEventV::Decl => (ReaderV { stage: Stage::AfterDecl, ..r }, Ok(false)),
            XmlEventV::Text(_) | XmlEventV::Comment => (r, Ok(false)),
            _ => (r, Err(EpubError::NoPackage)),
        },
        Stage::AfterDecl => match ev {
            XmlEventV::Start(n, _) => if is_package(n) {
                (ReaderV { stage: Stage::Metadata, ..r }, Ok(false))
            } else {
                (r, Err(EpubError::NoPackage))
            },
            _ => (r, Err(EpubError::NoPackage)),
        },
        Stage::Metadata => match ev {
            XmlEventV::Start(n, _) => if is_metadata(n) {
                (ReaderV { stage: Stage::Fields, ..r }, Ok(false))
            } else {
                (r, Err(EpubError::NoMetadata))
            },
            XmlEventV::Comment => (r, Ok(false)),
            _ => (r, Err(EpubError::NoMetadata)),
        },
        Stage::Fields => match ev {
            XmlEventV::Start(n, a) => (ReaderV { seen: field_of(n, a), ..r }, Ok(false)),
            XmlEventV::Text(t) => (ReaderV { meta: store(r.meta, r.seen, t, isbn), ..r }, Ok(false)),
            XmlEventV::End(n) => if is_metadata(n) {
                (ReaderV { stage: Stage::Done, ..r }, Ok(true))
            } else {
                (r, Ok(false))
            },
            XmlEventV::Eof => (ReaderV { stage: Stage::Done, ..r }, Ok(true)),
            _ => (r, Ok(false)),
        },
        Stage::Done => (r, Ok(true)),
    }
}

/// Reads an EPUB's metadata from the events of its package document, one at a time.
pub struct MetadataReader {
    stage: Stage,
    seen: Field,
    meta: EpubMetadata,
}

impl View for MetadataReader {
    type V = ReaderV;

    closed spec fn view(&self) -> ReaderV {
        ReaderV { stage: self.stage, seen: self.seen, meta: self.meta@ }
    }
}

fn text_is(s: &String, w: &str) -> (r: bool)
    ensures
        r == (s@ == w@),
{
    let a = chars_of(s.as_str());
    let b = chars_of(w);
    eq_chars(a.as_slice(), b.as_slice())
}

fn package_name(n: &String) -> (r: bool)
    ensures
        r == is_package(n@),
{
    text_is(n, "opf:package") || text_is(n, "package")
}

fn metadata_name(n: &String) -> (r: bool)
    ensures
        r == is_metadata(n@),
{
    text_is(n, "metadata") || text_is(n, "opf:metadata")
}

fn last_attr_value<'a>(a: &'a Vec<(String, String)>, key: &str) -> (r: Option<&'a str>)
    ensures
        match r {
            Some(s) => last_attr(attrs_view(a@), key@) == Some(s@),
            None => last_attr(attrs_view(a@), key@) is None,
        },
{
    let ghost av = attrs_view(a@);
    let mut i = a.len();
    assert(av.take(i as int) =~= av);
    while i > 0
        invariant
            i <= a@.len(),
            av == attrs_view(a@),
            last_attr(av, key@) == last_attr(av.take(i as int), key@),
        decreases i,
    {
        let ghost t = av.take(i as int);
        assert(t.drop_last() =~= av.take(i - 1));
        assert(t.last() == (a@[i - 1].0@, a@[i - 1].1@));
        if text_is(&a[i - 1].0, key) {
            return Some(a[i - 1].1.as_str());
        }
        i = i - 1;
    }
    assert(av.take(0) =~= Seq::<(Seq<char>, Seq<char>)>::empty());
    None
}

fn field_for(name: &String, a: &Vec<(String, String)>) -> (r: Field)
    ensures
        r == field_of(name@, attrs_view(a@)),
{
    if text_is(name, "dc:creator") {
        Field::Author
    } else if text_is(name, "dc:title") {
        Field::Title
    } else if text_is(name, "dc:identifier") {
        let scheme = last_attr_value(a, "opf:scheme");
        let id = last_attr_value(a, "id");
        Field::Identifier(identifier_scheme(scheme, id))
    } else if text_is(name, "dc:language") {
        Field::Language
    } else if text_is(name, "dc:publisher") {
        Field::Publisher
    } else if text_is(name, "dc:description") {
        Field::Description
    } else {
        Field::Unrecognized
    }
}

impl MetadataReader {
    /// A reader that has read nothing.
    pub fn new() -> (r: MetadataReader)
        ensures
            r@ == (ReaderV {
                stage: Stage::Package,
                seen: Field::Unrecognized,
                meta: MetaV { title: None, author: None, language: None, isbn: None, description: None },
            }),
    {
        MetadataReader {
            stage: Stage::Package,
            seen: Field::Unrecognized,
            meta: EpubMetadata { title: None, author: None, language: None, isbn: None, description: None },
        }
    }

    /// Reads one event: `Ok(true)` once the metadata is complete, an error where the
    /// document is not an EPUB package document.
    pub fn feed(&mut self, ev: XmlEvent) -> (r: Result<bool, EpubError>)
        ensures
            step_spec(old(self)@, ev@, event_isbn(ev@)) == (final(self)@, r),
    {
        let ghost e = ev@;
        let ghost mut isbn: Option<Seq<char>> = event_isbn(ev@);
        let r = match self.stage {
            Stage::Package => match ev {
                XmlEvent::Start(n, _) => if package_name(&n) {
                    self.stage = Stage::Metadata;
                    Ok(false)
                } else {
                    Err(EpubError::NoPackage)
                },
                XmlEvent::Decl => {
                    self.stage = Stage::AfterDecl;
                    Ok(false)
                },
                XmlEvent::Text(_) | XmlEvent::Comment => Ok(false),
                _ => Err(EpubError::NoPackage),
            },
            Stage::AfterDecl => match ev {
                XmlEvent::Start(n, _) => if package_name(&n) {
                    self.stage = Stage::Metadata;
                    Ok(false)
                } else {
                    Err(EpubError::NoPackage)
                },
                _ => Err(EpubError::NoPackage),
            },
            Stage::Metadata => match ev {
                XmlEvent::Start(n, _) => if metadata_name(&n) {
                    self.stage = Stage::Fields;
                    Ok(false)
                } else {
                    Err(EpubError::NoMetadata)
                },
                XmlEvent::Comment => Ok(false),
                _ => Err(EpubError::NoMetadata),
            },
            Stage::Fields => match ev {
                XmlEvent::Start(n, a) => {
                    self.seen = field_for(&n, &a);
                    Ok(false)
                },
                XmlEvent::Text(t) => {
                    match self.seen {
                        Field::Author => {
                            self.meta.author = Some(t);
                        },
                        Field::Title => {
                            self.meta.title = Some(t);
                        },
                        Field::Identifier(IdentifierScheme::ISBN) => {
                            let v = get_isbn(t.as_str());
                            proof {
                                isbn = opt_str(v);
                            }
                            self.meta.isbn = v;
                        },
                        Field::Language => {
                            self.meta.language = Some(t);
                        },
                        Field::Description => {
                            self.meta.description = Some(t);
                        },
                        _ => {},
                    }
                    Ok(false)
                },
                XmlEvent::End(n) => if metadata_name(&n) {
                    self.stage = Stage::Done;
                    Ok(true)
                } else {
                    Ok(false)
                },
                XmlEvent::Eof => {
                    self.stage = Stage::Done;
                    Ok(true)
                },
                _ => Ok(false),
            },
            Stage::Done => Ok(true),
        };
        assert(step_spec(old(self)@, e, isbn) == (self@, r));
        r
    }

    /// The metadata read so far.
    pub fn finish(self) -> (r: EpubMetadata)
        ensures
            r@ == self@.meta,
    {
        self.meta
    }
}

} // verus!

verus! {

// ---------------------------------------------------------------------------
// Laws of reading metadata
// ---------------------------------------------------------------------------

/// Within the metadata, a `dc:description` start tag makes the text that follows the
/// book's description, and leaves everything else that was read as it was.
pub proof fn lemma_description_text(r: ReaderV, a: Seq<(Seq<char>, Seq<char>)>, t: Seq<char>)
    requires
        r.stage == Stage::Fields,
    ensures
        ({
            let s1 = step_spec(r, XmlEventV::Start("dc:description"@, a), None);
            let s2 = step_spec(s1.0, XmlEventV::Text(t), event_isbn(XmlEventV::Text(t)));
            &&& s1.1 == Ok::<bool, EpubError>(false)
            &&& s2.1 == Ok::<bool, EpubError>(false)
            &&& s2.0.stage == Stage::Fields
            &&& s2.0.meta.description == Some(t)
            &&& s2.0.meta.title == r.meta.title
            &&& s2.0.meta.author == r.meta.author
            &&& s2.0.meta.language == r.meta.language
            &&& s2.0.meta.isbn == r.meta.isbn
        }),
{
    reveal_strlit("dc:creator");
    reveal_strlit("dc:title");
    reveal_strlit("dc:identifier");
    reveal_strlit("dc:language");
    reveal_strlit("dc:publisher");
    reveal_strlit("dc:description");
    assert("dc:description"@[3] != "dc:creator"@[3]);
    assert("dc:description"@[3] != "dc:title"@[3]);
    assert("dc:description"@[3] != "dc:identifier"@[3]);
    assert("dc:description"@[3] != "dc:language"@[3]);
    assert("dc:description"@[3] != "dc:publisher"@[3]);
    assert(field_of("dc:description"@, a) == Field::Description);
}

/// Reading a package document that declares itself, opens the package and the metadata,
/// gives a description and closes the metadata: reading is done, and the description read
/// is that text.
pub proof fn lemma_description_document(t: Seq<char>, a: Seq<(Seq<char>, Seq<char>)>)
    ensures
        ({
            let r0 = ReaderV {
                stage: Stage::Package,
                seen: Field::Unrecognized,
                meta: MetaV { title: None, author: None, language: None, isbn: None, description: None },
            };
            let e1 = XmlEventV::Decl;
            let e2 = XmlEventV::Start("package"@, a);
            let e3 = XmlEventV::Start("metadata"@, a);
            let e4 = XmlEventV::Start("dc:description"@, a);
            let e5 = XmlEventV::Text(t);
            let e6 = XmlEventV::End("metadata"@);
            let s1 = step_spec(r0, e1, event_isbn(e1));
            let s2 = step_spec(s1.0, e2, event_isbn(e2));
            let s3 = step_spec(s2.0, e3, event_isbn(e3));
            let s4 = step_spec(s3.0, e4, event_isbn(e4));
            let s5 = step_spec(s4.0, e5, event_isbn(e5));
            let s6 = step_spec(s5.0, e6, event_isbn(e6));
            &&& s5.1 == Ok::<bool, EpubError>(false)
            &&& s6.1 == Ok::<bool, EpubError>(true)
            &&& s6.0.meta.description == Some(t)
            &&& s6.0.meta.title is None
        }),
{
    reveal_strlit("package");
    reveal_strlit("opf:package");
    reveal_strlit("metadata");
    reveal_strlit("opf:metadata");
    reveal_strlit("dc:creator");
    reveal_strlit("dc:title");
    reveal_strlit("dc:identifier");
    reveal_strlit("dc:language");
    reveal_strlit("dc:publisher");
    reveal_strlit("dc:description");
    assert(is_package("package"@));
    assert(is_metadata("metadata"@));
    assert("dc:description"@[3] != "dc:creator"@[3]);
    assert("dc:description"@[3] != "dc:title"@[3]);
    assert("dc:description"@[3] != "dc:identifier"@[3]);
    assert("dc:description"@[3] != "dc:language"@[3]);
    assert("dc:description"@[3] != "dc:publisher"@[3]);
    assert(field_of("dc:description"@, a) == Field::Description);
}

} // verus!
