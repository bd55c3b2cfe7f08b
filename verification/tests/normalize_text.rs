use whois::normalizer::{normalize, normalize_edu, EduNormalized};
use whois::parser::{Contact, ContactField, DateType};

#[test]
fn normalize_applies_basic_normalization_without_a_suffix_normalizer() {
    let r = normalize("com", "  raw\r\n response \t".to_string());
    assert_eq!(r, Err("raw\n response".to_string()));
}

#[test]
fn normalize_of_clean_text_is_err_with_the_text() {
    let r = normalize("net", "clean response".to_string());
    assert_eq!(r, Err("clean response".to_string()));
}

#[test]
fn normalize_edu_strips_cr_tabs_and_surrounding_whitespace() {
    let out = normalize_edu(" \tDomain:\tEXAMPLE.EDU\r\nExpires:\t2030\r\n".to_string());
    assert_eq!(out, "Domain: EXAMPLE.EDU\nExpires: 2030");
}

#[test]
fn normalize_edu_of_empty_text_is_empty() {
    assert_eq!(normalize_edu(String::new()), "");
    assert_eq!(normalize_edu(" \r\n\t ".to_string()), "");
}

#[test]
fn normalize_edu_keeps_inner_newlines() {
    assert_eq!(normalize_edu("a\r\nb\r\nc".to_string()), "a\nb\nc");
}

fn named_contact(name: &str) -> Contact {
    Contact {
        name: Some(ContactField::Included(name.to_string())),
        organization: None,
        street: None,
        city: None,
        province: Some(ContactField::Redacted),
        postal_code: None,
        country: None,
        phone: None,
        phone_ext: None,
        fax: None,
        fax_ext: None,
        email: None,
        referral_url: None,
    }
}

#[test]
fn edu_fields_carry_into_the_parsed_record() {
    let normalized = EduNormalized {
        registrant: named_contact("registrant"),
        administrative: named_contact("admin"),
        technical: named_contact("tech"),
        name_servers: vec!["ns1.example.edu".to_string()],
        created: DateType::Raw("1997-01-01".to_string()),
        updated: DateType::Raw("2020-01-01".to_string()),
        expires: DateType::Raw("2030-01-01".to_string()),
    };
    let parsed = normalized.into_parsed();
    assert!(parsed.registrar.is_none());
    assert!(parsed.billing.is_none());
    assert!(parsed.dns_sec.is_none());
    assert_eq!(parsed.name_servers, Some(vec!["ns1.example.edu".to_string()]));
    match parsed.registrant {
        Some(c) => match c.name {
            Some(ContactField::Included(name)) => assert_eq!(name, "registrant"),
            other => panic!("unexpected name field {:?}", other),
        },
        None => panic!("registrant should be set"),
    }
}
