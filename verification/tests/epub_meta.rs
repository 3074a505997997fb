use bookstore::epub_meta::{
    get_isbn, get_root_file_byte_range, identifier_scheme, EpubError, IdentifierScheme,
    MetadataReader, XmlEvent,
};

#[test]
fn test_get_isbn() {
    let isbn = "urn:isbn:0123456789012";
    assert_eq!(get_isbn(isbn), Some(String::from("0123456789012")));
    let isbn = "0123456789012";
    assert_eq!(get_isbn(isbn), Some(String::from("0123456789012")));
    let isbn = "978-0-345-53979-3";
    assert_eq!(get_isbn(isbn), Some(String::from("978-0-345-53979-3")));
    let isbn = "hello world:0123456789012";
    assert_eq!(get_isbn(isbn), None);
}

#[test]
fn root_file_path_range() {
    let text = br#"<container><rootfiles><rootfile full-path="OEBPS/content.opf" media-type="x"/></rootfiles></container>"#;
    let (a, b) = get_root_file_byte_range(text).unwrap();
    assert_eq!(&text[a..b], b"OEBPS/content.opf");
    assert_eq!(get_root_file_byte_range(b"<container/>"), None);
}

#[test]
fn identifier_schemes_by_attribute() {
    assert_eq!(identifier_scheme(Some("ISBN"), None), IdentifierScheme::ISBN);
    assert_eq!(identifier_scheme(Some("Mobi-ASIN"), Some("isbn")), IdentifierScheme::MOBIASIN);
    assert_eq!(identifier_scheme(Some("other"), Some("isbn")), IdentifierScheme::Unknown);
    assert_eq!(identifier_scheme(None, Some("UUID_ID")), IdentifierScheme::UUID);
    assert_eq!(identifier_scheme(None, Some("isbn")), IdentifierScheme::ISBN);
    assert_eq!(identifier_scheme(None, None), IdentifierScheme::Unknown);
}

fn start(n: &str, attrs: &[(&str, &str)]) -> XmlEvent {
    XmlEvent::Start(
        n.to_string(),
        attrs.iter().map(|(k, v)| (k.to_string(), v.to_string())).collect(),
    )
}

#[test]
fn metadata_read_from_package_events() {
    let mut r = MetadataReader::new();
    let events = vec![
        XmlEvent::Decl,
        start("package", &[]),
        XmlEvent::Comment,
        start("metadata", &[]),
        start("dc:title", &[]),
        XmlEvent::Text("Dune".to_string()),
        XmlEvent::End("dc:title".to_string()),
        start("dc:creator", &[]),
        XmlEvent::Text("Herbert, Frank".to_string()),
        start("dc:identifier", &[("opf:scheme", "ISBN")]),
        XmlEvent::Text("urn:isbn:978-0441013593".to_string()),
        start("dc:language", &[]),
        XmlEvent::Text("en".to_string()),
        XmlEvent::End("metadata".to_string()),
    ];
    let mut done = false;
    for e in events {
        done = r.feed(e).unwrap();
    }
    assert!(done);
    let m = r.finish();
    assert_eq!(m.title.as_deref(), Some("Dune"));
    assert_eq!(m.author.as_deref(), Some("Herbert, Frank"));
    assert_eq!(m.isbn.as_deref(), Some("978-0441013593"));
    assert_eq!(m.language.as_deref(), Some("en"));
    assert_eq!(m.description, None);
}

#[test]
fn metadata_refuses_other_documents() {
    let mut r = MetadataReader::new();
    assert_eq!(r.feed(start("html", &[])), Err(EpubError::NoPackage));
    let mut r = MetadataReader::new();
    assert_eq!(r.feed(XmlEvent::Decl), Ok(false));
    assert_eq!(r.feed(XmlEvent::Comment), Err(EpubError::NoPackage));
    let mut r = MetadataReader::new();
    assert_eq!(r.feed(start("opf:package", &[])), Ok(false));
    assert_eq!(r.feed(start("manifest", &[])), Err(EpubError::NoMetadata));
    let mut r = MetadataReader::new();
    assert_eq!(r.feed(start("package", &[])), Ok(false));
    assert_eq!(r.feed(start("opf:metadata", &[])), Ok(false));
    assert_eq!(r.feed(XmlEvent::Eof), Ok(true));
    assert_eq!(r.feed(XmlEvent::Text("late".to_string())), Ok(true));
}
