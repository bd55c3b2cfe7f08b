use whois::builder::{ServerListType, WhoisBuilder};
use whois::whois::{Whois, WhoisServerEntry};
use whois::WhoisError;

fn registry(json: &str) -> Whois {
    WhoisBuilder::new(ServerListType::Data(json.to_string()))
        .build()
        .expect("registry should build")
}

#[test]
fn end_to_end_simple_host() {
    let w = registry("{\"com\": {\"host\":\"whois.verisign-grs.com\"}}");
    let info = w.resolve("example.com").expect("a server should be found");
    assert_eq!(info.server_info.host_str(), "whois.verisign-grs.com");
    assert_eq!(info.domain, "example.com");
}

#[test]
fn end_to_end_known_suffix_without_server() {
    let w = registry("{\"com\": null}");
    match w.resolve("example.com") {
        Err(WhoisError::WhoisServer(domain)) => assert_eq!(domain, "example.com"),
        other => panic!("expected a no-server failure, got {:?}", other),
    }
}

#[test]
fn no_registered_suffix_fails() {
    let w = registry("{\"net\": \"whois.nic.net\"}");
    match w.resolve("example.com") {
        Err(WhoisError::WhoisServer(domain)) => assert_eq!(domain, "example.com"),
        other => panic!("expected a no-server failure, got {:?}", other),
    }
}

#[test]
fn subdomains_do_not_change_the_root() {
    let w = registry("{\"co.uk\": \"whois.nic.uk\"}");
    let short = w.lookup_domain_info("example.co.uk").expect("should resolve");
    let long = w
        .lookup_domain_info("a.b.example.co.uk")
        .expect("should resolve");
    assert_eq!(short.domain, "example.co.uk");
    assert_eq!(long.domain, "example.co.uk");
    assert_eq!(short.server_info, long.server_info);
}

#[test]
fn domain_that_is_exactly_a_suffix_queries_itself() {
    let w = registry("{\"uk.com\": \"whois.centralnic.net\"}");
    let info = w.lookup_domain_info("uk.com").expect("should resolve");
    assert_eq!(info.domain, "uk.com");
    assert_eq!(info.server_info.host_str(), "whois.centralnic.net");
}

#[test]
fn longest_suffix_wins() {
    let w = registry("{\"com\": \"whois.verisign-grs.com\", \"example.com\": \"whois.example-registry.net\"}");
    let entry = w
        .lookup_server_domain("www.example.com")
        .expect("should find the longer suffix");
    assert_eq!(entry.host_str(), "whois.example-registry.net");
}

#[test]
fn matched_serverless_suffix_stops_the_search() {
    let w = registry("{\"example.com\": null, \"com\": \"whois.verisign-grs.com\"}");
    assert!(w.lookup_server_domain("www.example.com").is_none());
    assert!(w.lookup_domain_info("www.example.com").is_none());
}

#[test]
fn lookup_server_is_exact_match_only() {
    let w = registry("{\"com\": \"whois.verisign-grs.com\"}");
    assert_eq!(
        w.lookup_server("com"),
        Some(WhoisServerEntry::Simple("whois.verisign-grs.com".to_string()))
    );
    assert!(w.lookup_server("example.com").is_none());
    assert!(w.lookup_server("co.uk").is_none());
}

#[test]
fn unicode_domain_is_resolved_through_its_ascii_form() {
    let w = registry("{\"at\": \"whois.nic.at\"}");
    let info = w.resolve("\u{f6}bb.at").expect("should resolve");
    assert_eq!(info.domain, "xn--bb-eka.at");
    assert_eq!(info.server_info.host_str(), "whois.nic.at");
}

#[test]
fn detailed_entry_without_punycode_queries_the_unicode_form() {
    let w = registry(
        "{\"at\": {\"host\":\"whois.nic.at\",\"query\":\"domain $addr\\r\\n\",\"punycode\":false}}",
    );
    let info = w.resolve("\u{f6}bb.at").expect("should resolve");
    assert_eq!(info.domain, "\u{f6}bb.at");
}

#[test]
fn detailed_entry_with_punycode_keeps_the_ascii_form() {
    let w = registry(
        "{\"at\": {\"host\":\"whois.nic.at\",\"query\":\"domain $addr\\r\\n\",\"punycode\":true}}",
    );
    let info = w.resolve("\u{f6}bb.at").expect("should resolve");
    assert_eq!(info.domain, "xn--bb-eka.at");
}

#[test]
fn punycode_input_is_converted_back_for_unicode_queries() {
    let w = registry(
        "{\"at\": {\"host\":\"whois.nic.at\",\"query\":\"domain $addr\\r\\n\",\"punycode\":false}}",
    );
    let info = w.resolve("xn--bb-eka.at").expect("should resolve");
    assert_eq!(info.domain, "\u{f6}bb.at");
}

#[test]
fn unicode_query_uses_the_registrable_root_only() {
    let w = registry(
        "{\"at\": {\"host\":\"whois.nic.at\",\"query\":\"domain $addr\\r\\n\",\"punycode\":false}}",
    );
    let info = w.resolve("www.\u{f6}bb.at").expect("should resolve");
    assert_eq!(info.domain, "\u{f6}bb.at");
}

#[test]
fn resolution_folds_case_through_the_ascii_form() {
    let w = registry("{\"com\": \"whois.verisign-grs.com\"}");
    let info = w.resolve("WWW.Example.COM").expect("should resolve");
    assert_eq!(info.domain, "example.com");
}

#[test]
fn connect_addr_is_host_on_port_43() {
    let entry = WhoisServerEntry::Simple("whois.nic.at".to_string());
    assert_eq!(entry.connect_addr(), "whois.nic.at:43");
}
