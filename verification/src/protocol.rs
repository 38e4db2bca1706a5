//! Decoding the submission endpoint's answers.
//!
//! The endpoint answers a submission with a small JSON object carrying a
//! string discriminator ("success" or "error"), a points balance as text,
//! and sometimes a message.  The balance is only trusted on success.

use vstd::prelude::*;

verus! {

use crate::SubmitError;
use crate::text::{all_digits, decimal_value, parse_u32};

/// The string value at a top-level key of a JSON document, or nothing when
/// the document is not a JSON object, the key is absent, or the value is not
/// a string.  A pure function of the document and the key.
pub uninterp spec fn json_str_field(body: Seq<char>, key: Seq<char>) -> Option<Seq<char>>;

/// Relies on `serde_json::from_str`, `Value::get` and `Value::as_str`: looks
/// up the string value at a top-level key of a JSON document.
#[verifier::external_body]
pub(crate) fn json_string_field(body: &str, key: &str) -> (r: Option<String>)
    ensures
        (r is Some) == (json_str_field(body@, key@) is Some),
        r matches Some(v) ==> json_str_field(body@, key@) matches Some(f) && v@ == f,
{
    let value: serde_json::Value = match serde_json::from_str(body) {
        Ok(v) => v,
        Err(_) => return None,
    };
    match value.get(key) {
        Some(field) => match field.as_str() {
            Some(s) => Some(String::from(s)),
            None => None,
        },
        None => None,
    }
}

/// The reason the platform reports for a rejected entry: the response's
/// message when it carries one, empty otherwise.
pub open spec fn spec_reject_reason(body: Seq<char>) -> Seq<char> {
    match json_str_field(body, "msg"@) {
        Option::None => Seq::empty(),
        Option::Some(m) => m,
    }
}

/// Decodes one submission attempt's answer.  A status other than 200 fails
/// the attempt outright.  On a success discriminator the server's balance is
/// returned; on an error discriminator the attempt is rejected with the
/// server's reason and the balance is not trusted; any other discriminator
/// is an unknown response; a response without a readable discriminator, or a
/// success whose balance is not a plain number, is malformed.
pub fn decode_enter_response(status: u16, body: &str) -> (r: Result<u32, SubmitError>)
    ensures
        status != 200 ==> r == Err::<u32, SubmitError>(SubmitError::StatusCode(status)),
        status == 200 ==> match json_str_field(body@, "type"@) {
            Option::None => r == Err::<u32, SubmitError>(SubmitError::MalformedResponse),
            Option::Some(t) => if t == "success"@ {
                match json_str_field(body@, "points"@) {
                    Option::None => r == Err::<u32, SubmitError>(SubmitError::MalformedResponse),
                    Option::Some(p) => if p.len() > 0 && all_digits(p) && decimal_value(p)
                        <= u32::MAX {
                        r == Ok::<u32, SubmitError>(decimal_value(p) as u32)
                    } else {
                        r == Err::<u32, SubmitError>(SubmitError::MalformedResponse)
                    },
                }
            } else if t == "error"@ {
                r matches Err(e) && e matches SubmitError::Rejected(m) && m@ == spec_reject_reason(
                    body@,
                )
            } else {
                r matches Err(e) && e matches SubmitError::UnknownResponse(u) && u@ == t
            },
        },
{
    if status != 200 {
        return Err(SubmitError::StatusCode(status));
    }
    let kind = match json_string_field(body, "type") {
        Option::None => {
            return Err(SubmitError::MalformedResponse);
        },
        Option::Some(k) => k,
    };
    if kind.eq(&String::from_str("success")) {
        let points = match json_string_field(body, "points") {
            Option::None => {
                return Err(SubmitError::MalformedResponse);
            },
            Option::Some(p) => p,
        };
        match parse_u32(points.as_str()) {
            Option::None => Err(SubmitError::MalformedResponse),
            Option::Some(balance) => Ok(balance),
        }
    } else if kind.eq(&String::from_str("error")) {
        let reason = match json_string_field(body, "msg") {
            Option::None => String::new(),
            Option::Some(m) => m,
        };
        Err(SubmitError::Rejected(reason))
    } else {
        Err(SubmitError::UnknownResponse(kind))
    }
}

} // verus!
