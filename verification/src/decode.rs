//! Decoding raw WHOIS response bytes into text.
//!
//! Decoding tries strict UTF-8 first. When that fails, the fallback is
//! either the windows-1252 legacy decoder — failing with the original bytes
//! if it had to replace anything — or a lossy UTF-8 reconstruction that
//! never fails, depending on how the caller configures the fallback.

use vstd::prelude::*;

use crate::WhoisError;
use crate::WhoisErrorView;
use vstd::utf8::decode_utf8;
use vstd::utf8::valid_utf8;

verus! {

/// What `encoding_rs::WINDOWS_1252.decode` turns bytes into: the decoded
/// text and whether any replacement happened. The result depends on the
/// bytes alone.
pub uninterp spec fn windows1252_decoded(bytes: Seq<u8>) -> (Seq<char>, bool);

/// What `String::from_utf8_lossy` turns bytes into. The result depends on
/// the bytes alone.
pub uninterp spec fn utf8_lossy(bytes: Seq<u8>) -> Seq<char>;

/// Relies on `std::str::from_utf8`: it succeeds exactly on valid UTF-8 and
/// returns its decoding.
#[verifier::external_body]
fn try_strict_utf8(data: &Vec<u8>) -> (r: Option<String>)
    ensures
        (r is Some) == valid_utf8(data@),
        r matches Some(s) ==> s@ == decode_utf8(data@),
{
    match std::str::from_utf8(data.as_slice()) {
        Ok(text) => Some(text.to_string()),
        Err(_) => None,
    }
}

/// Relies on `encoding_rs::Encoding::decode` for `WINDOWS_1252`: the
/// decoded text and the replacement flag depend on the bytes alone.
#[verifier::external_body]
fn decode_windows1252(data: &Vec<u8>) -> (r: (String, bool))
    ensures
        (r.0@, r.1) == windows1252_decoded(data@),
{
    let (text, _, had_errors) = encoding_rs::WINDOWS_1252.decode(data.as_slice());
    (text.into_owned(), had_errors)
}

/// Relies on `String::from_utf8_lossy`: the reconstruction depends on the
/// bytes alone.
#[verifier::external_body]
fn decode_lossy(data: &Vec<u8>) -> (r: String)
    ensures
        r@ == utf8_lossy(data@),
{
    String::from_utf8_lossy(data.as_slice()).into_owned()
}

/// Decodes bytes that are not strict UTF-8. With the legacy decoder enabled
/// it decodes as windows-1252, handing the bytes back as the error when
/// that decoder had to replace anything; otherwise it reconstructs text
/// lossily, which never fails.
pub fn decode(data: Vec<u8>, legacy: bool) -> (r: Result<String, Vec<u8>>)
    ensures
        legacy && !windows1252_decoded(data@).1 ==> (r matches Ok(s) && s@
            == windows1252_decoded(data@).0),
        legacy && windows1252_decoded(data@).1 ==> (r matches Err(b) && b@ == data@),
        !legacy ==> (r matches Ok(s) && s@ == utf8_lossy(data@)),
{
    if legacy {
        let (text, had_errors) = decode_windows1252(&data);
        if had_errors {
            Err(data)
        } else {
            Ok(text)
        }
    } else {
        Ok(decode_lossy(&data))
    }
}

/// Decodes a raw WHOIS response: strict UTF-8 when the bytes allow it, and
/// the configured fallback otherwise. Only the legacy fallback can fail,
/// and then the error carries the original bytes.
pub fn decode_response(data: Vec<u8>, legacy: bool) -> (r: Result<String, WhoisError>)
    ensures
        valid_utf8(data@) ==> (r matches Ok(s) && s@ == decode_utf8(data@)),
        !valid_utf8(data@) && legacy && !windows1252_decoded(data@).1 ==> (r matches Ok(s) && s@
            == windows1252_decoded(data@).0),
        !valid_utf8(data@) && legacy && windows1252_decoded(data@).1 ==> (r matches Err(e) && e@
            == WhoisErrorView::WhoisData(data@)),
        !valid_utf8(data@) && !legacy ==> (r matches Ok(s) && s@ == utf8_lossy(data@)),
{
    match try_strict_utf8(&data) {
        Some(text) => Ok(text),
        None => match decode(data, legacy) {
            Ok(text) => Ok(text),
            Err(bytes) => Err(WhoisError::WhoisData(bytes)),
        },
    }
}

} // verus!
