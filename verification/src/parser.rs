//! Structured WHOIS response data.
//!
//! Parsing raw responses into these records is left to the caller; this
//! crate only carries the record shapes and the response normalization.

use vstd::prelude::*;

verus! {

/// The type of date that was extracted from whois.
#[derive(Debug, Clone)]
pub enum DateType {
    /// Raw date string from whois.
    Raw(String),
}

/// One field of a contact in a whois response.
#[derive(Debug, Clone)]
pub enum ContactField {
    /// Data included in the whois response.
    Included(String),
    /// Data redacted from the whois response.
    Redacted,
}

/// A contact of a whois record.
#[derive(Debug, Clone)]
pub struct Contact {
    pub name: Option<ContactField>,
    pub organization: Option<ContactField>,
    pub street: Option<ContactField>,
    pub city: Option<ContactField>,
    pub province: Option<ContactField>,
    pub postal_code: Option<ContactField>,
    pub country: Option<ContactField>,
    pub phone: Option<ContactField>,
    pub phone_ext: Option<ContactField>,
    pub fax: Option<ContactField>,
    pub fax_ext: Option<ContactField>,
    pub email: Option<ContactField>,
    pub referral_url: Option<ContactField>,
}

/// A whois domain record.
#[derive(Debug, Clone)]
pub struct ParsedDomain {
    pub registrar: Option<Contact>,
    pub registrant: Option<Contact>,
    pub administrative: Option<Contact>,
    pub technical: Option<Contact>,
    pub billing: Option<Contact>,
    pub created: Option<DateType>,
    pub updated: Option<DateType>,
    pub expires: Option<DateType>,
    pub name_servers: Option<Vec<String>>,
    pub dns_sec: Option<bool>,
}

impl Default for ParsedDomain {
    /// The record with nothing known of the domain.
    fn default() -> (r: ParsedDomain)
        ensures
            r.registrar is None,
            r.registrant is None,
            r.administrative is None,
            r.technical is None,
            r.billing is None,
            r.created is None,
            r.updated is None,
            r.expires is None,
            r.name_servers is None,
            r.dns_sec is None,
    {
        ParsedDomain {
            registrar: None,
            registrant: None,
            administrative: None,
            technical: None,
            billing: None,
            created: None,
            updated: None,
            expires: None,
            name_servers: None,
            dns_sec: None,
        }
    }
}

} // verus!
