use whois::builder::{ServerListType, WhoisBuilder, WhoisBuilderError};
use whois::whois::WhoisServerEntry;

fn build(json: &str) -> Result<whois::whois::Whois, WhoisBuilderError> {
    WhoisBuilder::new(ServerListType::Data(json.to_string())).build()
}

#[test]
fn string_record_is_a_simple_entry() {
    let w = build("{\"com\": \"whois.verisign-grs.com\"}").unwrap();
    assert_eq!(
        w.lookup_server("com"),
        Some(WhoisServerEntry::Simple("whois.verisign-grs.com".to_string()))
    );
}

#[test]
fn null_record_is_a_known_suffix_without_server() {
    let w = build("{\"com\": null}").unwrap();
    assert!(w.lookup_server("com").is_none());
    assert!(w.lookup_server_domain("example.com").is_none());
}

#[test]
fn object_record_with_query_is_a_detailed_entry() {
    let w = build(
        "{\"dk\": {\"host\":\"whois.dk-hostmaster.dk\",\"query\":\"--show-handles $addr\\r\\n\",\"punycode\":false}}",
    )
    .unwrap();
    assert_eq!(
        w.lookup_server("dk"),
        Some(WhoisServerEntry::Detailed {
            host: "whois.dk-hostmaster.dk".to_string(),
            query: "--show-handles $addr\r\n".to_string(),
            punycode: false,
        })
    );
}

#[test]
fn object_record_without_query_is_a_simple_entry() {
    let w = build("{\"com\": {\"host\":\"whois.verisign-grs.com\"}}").unwrap();
    assert_eq!(
        w.lookup_server("com"),
        Some(WhoisServerEntry::Simple("whois.verisign-grs.com".to_string()))
    );
}

#[test]
fn punycode_defaults_to_on() {
    let w = build("{\"jp\": {\"host\":\"whois.jprs.jp\",\"query\":\"$addr\\r\\n\"}}").unwrap();
    assert_eq!(
        w.lookup_server("jp"),
        Some(WhoisServerEntry::Detailed {
            host: "whois.jprs.jp".to_string(),
            query: "$addr\r\n".to_string(),
            punycode: true,
        })
    );
}

#[test]
fn text_that_is_no_json_object_is_malformed() {
    assert_eq!(build("not json").unwrap_err(), WhoisBuilderError::Malformed);
    assert_eq!(build("[1, 2]").unwrap_err(), WhoisBuilderError::Malformed);
}

#[test]
fn wrongly_typed_records_are_malformed() {
    assert_eq!(build("{\"com\": 5}").unwrap_err(), WhoisBuilderError::Malformed);
    assert_eq!(
        build("{\"com\": {\"query\":\"$addr\"}}").unwrap_err(),
        WhoisBuilderError::Malformed
    );
    assert_eq!(
        build("{\"com\": {\"host\":\"h\",\"query\":\"q\",\"punycode\":\"yes\"}}").unwrap_err(),
        WhoisBuilderError::Malformed
    );
    assert_eq!(
        build("{\"com\": {\"host\":\"h\",\"query\":5}}").unwrap_err(),
        WhoisBuilderError::Malformed
    );
}

#[test]
fn empty_hosts_are_malformed() {
    assert_eq!(build("{\"com\": \"\"}").unwrap_err(), WhoisBuilderError::Malformed);
    assert_eq!(
        build("{\"com\": {\"host\":\"\"}}").unwrap_err(),
        WhoisBuilderError::Malformed
    );
}

#[test]
fn parsed_list_builds_directly() {
    let pairs = vec![
        ("com".to_string(), Some(WhoisServerEntry::Simple("whois.verisign-grs.com".to_string()))),
        ("dev".to_string(), None),
    ];
    let w = WhoisBuilder::new(ServerListType::Parsed(pairs)).build().unwrap();
    assert_eq!(
        w.lookup_server("com"),
        Some(WhoisServerEntry::Simple("whois.verisign-grs.com".to_string()))
    );
    assert!(w.lookup_server("dev").is_none());
}

#[test]
fn parsed_entry_with_empty_host_is_malformed() {
    let pairs = vec![("com".to_string(), Some(WhoisServerEntry::Simple(String::new())))];
    assert_eq!(
        WhoisBuilder::new(ServerListType::Parsed(pairs)).build().unwrap_err(),
        WhoisBuilderError::Malformed
    );
}

#[test]
fn with_server_data_replaces_the_list() {
    let b = WhoisBuilder::new(ServerListType::Parsed(Vec::new()))
        .with_server_data("{\"com\": null}".to_string());
    let w = b.build().unwrap();
    assert!(w.lookup_server_domain("example.com").is_none());
}

#[test]
fn later_duplicate_keys_overwrite_earlier_ones() {
    let pairs = vec![
        ("com".to_string(), Some(WhoisServerEntry::Simple("first".to_string()))),
        ("com".to_string(), Some(WhoisServerEntry::Simple("second".to_string()))),
    ];
    let w = WhoisBuilder::new(ServerListType::Parsed(pairs)).build().unwrap();
    assert_eq!(w.lookup_server("com"), Some(WhoisServerEntry::Simple("second".to_string())));
}
