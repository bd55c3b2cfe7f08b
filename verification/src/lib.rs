//! A WHOIS client core: resolves a domain name to its authoritative WHOIS
//! server by longest-suffix match over a registry, builds the wire query for
//! the chosen server, and decodes raw response bytes into text.
//!
//! Network transport (one TCP exchange on port 43 per lookup) is left to the
//! caller, which feeds the raw response bytes back into the decoder.

use vstd::prelude::*;

pub mod builder;
pub mod decode;
pub mod normalizer;
pub mod parser;
pub mod query;
pub mod suffix;
pub mod whois;

verus! {

/// A failure of a single lookup.
#[derive(Debug)]
pub enum WhoisError {
    /// The domain could not be converted between its Unicode and ASCII forms.
    IDNA,
    /// The response bytes could not be decoded to text; carries the raw bytes
    /// so the caller may apply its own decoding.
    WhoisData(Vec<u8>),
    /// No WHOIS server is known for any suffix of the domain; carries the
    /// domain that was looked up.
    WhoisServer(String),
}

/// The mathematical content of a `WhoisError`.
pub enum WhoisErrorView {
    IDNA,
    WhoisData(Seq<u8>),
    WhoisServer(Seq<char>),
}

impl View for WhoisError {
    type V = WhoisErrorView;

    open spec fn view(&self) -> WhoisErrorView {
        match self {
            WhoisError::IDNA => WhoisErrorView::IDNA,
            WhoisError::WhoisData(bytes) => WhoisErrorView::WhoisData(bytes@),
            WhoisError::WhoisServer(domain) => WhoisErrorView::WhoisServer(domain@),
        }
    }
}

} // verus!
