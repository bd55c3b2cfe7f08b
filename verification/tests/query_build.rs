use whois::query::build_query;
use whois::whois::{DomainLookupInfo, WhoisServerEntry};

fn simple_target(host: &str, domain: &str) -> DomainLookupInfo {
    DomainLookupInfo {
        server_info: WhoisServerEntry::Simple(host.to_string()),
        domain: domain.to_string(),
    }
}

fn detailed_target(host: &str, query: &str, punycode: bool, domain: &str) -> DomainLookupInfo {
    DomainLookupInfo {
        server_info: WhoisServerEntry::Detailed {
            host: host.to_string(),
            query: query.to_string(),
            punycode,
        },
        domain: domain.to_string(),
    }
}

#[test]
fn simple_query_is_domain_crlf() {
    let q = build_query(&simple_target("whois.verisign-grs.com", "example.com"));
    assert_eq!(q.as_bytes(), b"example.com\r\n");
}

#[test]
fn detailed_query_substitutes_the_placeholder() {
    let q = build_query(&detailed_target(
        "whois.nic.example",
        "domain $addr\r\n",
        true,
        "example.com",
    ));
    assert_eq!(q.as_bytes(), b"domain example.com\r\n");
}

#[test]
fn every_placeholder_occurrence_is_replaced() {
    let q = build_query(&detailed_target("h", "$addr twice $addr\r\n", true, "a.b"));
    assert_eq!(q, "a.b twice a.b\r\n");
}

#[test]
fn template_without_placeholder_is_sent_verbatim() {
    let q = build_query(&detailed_target("h", "status\r\n", true, "example.com"));
    assert_eq!(q, "status\r\n");
}

#[test]
fn template_gets_no_extra_terminator() {
    let q = build_query(&detailed_target("h", "$addr", true, "example.com"));
    assert_eq!(q, "example.com");
}

#[test]
fn near_placeholder_text_is_kept() {
    let q = build_query(&detailed_target("h", "$add$addr$ad", true, "x.y"));
    assert_eq!(q, "$addx.y$ad");
}
