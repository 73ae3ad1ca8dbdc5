use synd::{EntryIdent, IdentParseError};

#[test]
fn text_form() {
    assert_eq!(EntryIdent::AtomId("urn:x".to_string()).to_string(), "AtomId(urn:x)");
    assert_eq!(EntryIdent::RssGuid("g".to_string()).to_string(), "RssGuid(g)");
    assert_eq!(EntryIdent::RssLink("http://a/(b)".to_string()).to_string(), "RssLink(http://a/(b))");
}

#[test]
fn round_trip() {
    for id in [
        EntryIdent::AtomId("".to_string()),
        EntryIdent::RssGuid("with (parens) and é".to_string()),
        EntryIdent::RssLink("http://x/y".to_string()),
    ] {
        let text = id.to_string();
        assert!(EntryIdent::text_is_parsable(&text));
        assert_eq!(EntryIdent::from_str(&text), Ok(id));
    }
}

#[test]
fn parse_errors() {
    assert_eq!(EntryIdent::from_str("AtomId"), Err(IdentParseError::InvalidValue));
    assert_eq!(EntryIdent::from_str(""), Err(IdentParseError::InvalidValue));
    assert_eq!(EntryIdent::from_str("Other(x)"), Err(IdentParseError::InvalidKind));
    assert_eq!(IdentParseError::InvalidValue.message(), "invalid value");
    assert_eq!(IdentParseError::InvalidKind.message(), "invalid enum kind");
}

#[test]
fn last_character_is_dropped_whatever_it_is() {
    assert_eq!(EntryIdent::from_str("RssGuid(abc]"), Ok(EntryIdent::RssGuid("abc".to_string())));
}

#[test]
fn texts_on_which_parsing_is_undefined() {
    assert!(!EntryIdent::text_is_parsable("AtomId("));
    assert!(!EntryIdent::text_is_parsable("AtomId(aé"));
    assert!(EntryIdent::text_is_parsable("no paren"));
}
