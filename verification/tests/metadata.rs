use tus_handlers::error::ProtocolError;
use tus_handlers::metadata::{
    blank, item_text, parse_item, parse_items, validate_key, validate_value, value_entry, Metadata,
};

fn entry(key: &str, value: Option<&str>) -> (String, Option<String>) {
    (key.to_string(), value.map(|v| v.to_string()))
}

fn parsed(raw: &str) -> Vec<(String, Option<String>)> {
    Metadata::parse_metadata(raw).expect("well formed metadata").0
}

fn refused(raw: &str) {
    match Metadata::parse_metadata(raw) {
        Err(e) => assert_eq!(e, ProtocolError::InvalidMetadata, "{:?}", raw),
        Ok(m) => panic!("{:?} was read as {:?}", raw, m),
    }
}

#[test]
fn keys() {
    assert!(validate_key("filename"));
    assert!(validate_key("a\tb"));
    assert!(validate_key("schl\u{fc}ssel"));
    assert!(!validate_key(""));
    assert!(!validate_key("a b"));
    assert!(!validate_key(" "));
    assert!(!validate_key("a,b"));
}

#[test]
fn values() {
    assert!(validate_value("aGVsbG8="));
    assert!(validate_value("aGVs"));
    assert!(!validate_value(""));
    assert!(!validate_value("aGVsbG8"));
    assert!(!validate_value("aGVsbG9="));
    assert!(!validate_value("a*Vs"));
}

#[test]
fn white_space_is_blank() {
    assert!(blank(""));
    assert!(blank(" \t\r\n\u{a0}\u{3000}\u{2009}"));
    assert!(!blank(" x "));
    assert!(!blank("\u{200b}"));
}

#[test]
fn reads_items() {
    assert_eq!(parse_item("key"), Some(entry("key", None)));
    assert_eq!(parse_item("key dmFsdWU="), Some(entry("key", Some("dmFsdWU="))));
    assert_eq!(parse_item("key !!"), Some(entry("key", Some("!!"))));
    assert_eq!(parse_item("key "), None);
    assert_eq!(parse_item(" key"), None);
    assert_eq!(parse_item("a b c"), None);
    assert_eq!(
        parse_items("a,b Yg=="),
        Some(vec![entry("a", None), entry("b", Some("Yg=="))])
    );
    assert_eq!(parse_items("a,b Yg==,a"), None);
    assert_eq!(parse_items("a,,b"), None);
}

#[test]
fn reads_metadata() {
    assert_eq!(
        parsed("filename d29ybGRfZG9taW5hdGlvbl9wbGFuLnBkZg==,is_confidential"),
        vec![
            entry("filename", Some("world_domination_plan.pdf")),
            entry("is_confidential", None)
        ]
    );
    assert_eq!(parsed("key dmFsdWU="), vec![entry("key", Some("value"))]);
}

#[test]
fn repairs_values_that_are_no_text() {
    assert_eq!(parsed("k /w=="), vec![entry("k", Some("\u{fffd}"))]);
    assert_eq!(parsed("k w7w="), vec![entry("k", Some("\u{fc}"))]);
}

#[test]
fn refuses_what_is_no_metadata() {
    refused("");
    refused("   ");
    refused(",");
    refused("a,");
    refused("a, b");
    refused("key dmFsdWU= more");
    refused("key ");
    refused("key dmFsdWU");
    refused("key ****");
    refused("a,a");
    refused("a YQ==,a");
}

#[test]
fn decoded_values_make_entries() {
    assert_eq!(
        value_entry("k".to_string(), Some(b"v".to_vec())),
        Ok(entry("k", Some("v")))
    );
    assert_eq!(
        value_entry("k".to_string(), None),
        Err(ProtocolError::InvalidMetadata)
    );
}

#[test]
fn writes_items() {
    assert_eq!(item_text("key", None), "key");
    assert_eq!(item_text("key", Some("dmFsdWU=")), "key dmFsdWU=");
}

#[test]
fn writes_metadata() {
    assert_eq!(Metadata::stringify(Metadata(vec![])), "");
    assert_eq!(
        Metadata::stringify(Metadata(vec![entry("key", Some("value")), entry("flag", None)])),
        "key dmFsdWU=, flag"
    );
}

#[test]
fn single_entry_is_read_back() {
    for e in [entry("key", Some("value")), entry("flag", None), entry("k", Some("\u{fc}\n"))] {
        let text = Metadata::stringify(Metadata(vec![e.clone()]));
        assert_eq!(parsed(&text), vec![e]);
    }
}

#[test]
fn other_metadata_is_not_read_back() {
    refused(&Metadata::stringify(Metadata(vec![])));
    refused(&Metadata::stringify(Metadata(vec![entry("a", None), entry("b", None)])));
    refused(&Metadata::stringify(Metadata(vec![entry("a", Some(""))])));
    refused(&Metadata::stringify(Metadata(vec![entry("\u{a0}", None)])));
}

#[test]
fn metadata_is_written_as_its_items() {
    let raw = "filename d29ybGQ=,flag";
    let metadata = Metadata::parse_metadata(raw).expect("well formed");
    assert_eq!(Metadata::stringify(metadata), "filename d29ybGQ=, flag");
}

#[test]
fn metadata_lends_its_entries() {
    let mut metadata = Metadata(vec![entry("a", None)]);
    assert!(metadata.encodable());
    assert_eq!(metadata.len(), 1);
    metadata.push(entry("b", None));
    assert_eq!(metadata.0, vec![entry("a", None), entry("b", None)]);
    assert!(Metadata::default().is_empty());
}

#[test]
fn values_are_found_by_key() {
    let metadata = Metadata(vec![entry("a", None), entry("b", Some("1")), entry("b", Some("2"))]);
    assert_eq!(metadata.get("a"), Some(&None));
    assert_eq!(metadata.get("b"), Some(&Some("1".to_string())));
    assert_eq!(metadata.get("c"), None);
}

#[test]
fn values_are_replaced_by_key() {
    let mut metadata = Metadata(vec![entry("a", None), entry("b", Some("1"))]);
    assert_eq!(metadata.insert("a".to_string(), Some("2".to_string())), Some(None));
    assert_eq!(metadata.insert("c".to_string(), None), None);
    assert_eq!(metadata.insert("b".to_string(), None), Some(Some("1".to_string())));
    assert_eq!(metadata.0, vec![entry("a", Some("2")), entry("b", None), entry("c", None)]);
}

#[test]
fn empty_value_is_written_as_nothing() {
    assert_eq!(Metadata::stringify(Metadata(vec![entry("k", Some(""))])), "k ");
}
