//! Declarations of the outside types the library carries, and the calls into
//! outside crates that its logic makes.
use vstd::prelude::*;

verus! {

/// `std::io::Error`, carried inside the library's error types.
#[verifier::external_type_specification]
#[verifier::external_body]
pub struct ExIoError(std::io::Error);

/// `serde_json::Error`, carried inside the library's error types.
#[verifier::external_type_specification]
#[verifier::external_body]
pub struct ExJsonError(serde_json::Error);

/// `serde_json::Value`, carried through as an opaque conversation message.
#[verifier::external_type_specification]
#[verifier::external_body]
pub struct ExJsonValue(serde_json::Value);

/// Whether `c` is a lowercase hexadecimal digit or a hyphen.
pub open spec fn is_uuid_char(c: char) -> bool {
    ('0' <= c <= '9') || ('a' <= c <= 'f') || c == '-'
}

/// A fresh random version-4 UUID in its hyphenated text form
/// (`uuid::Uuid::new_v4().to_string()`). The uuid crate's `Display` writes the
/// 36-character lowercase hyphenated form; which UUID comes out is random and
/// is not stated.
#[verifier::external_body]
pub(crate) fn new_uuid_text() -> (s: String)
    ensures
        s@.len() == 36,
        forall|i: int| 0 <= i < 36 ==> is_uuid_char(#[trigger] s@[i]),
{
    uuid::Uuid::new_v4().to_string()
}

/// The current time as an RFC 3339 string (`chrono::Utc::now().to_rfc3339()`).
/// The result depends on the clock; nothing is stated of it.
#[verifier::external_body]
pub(crate) fn now_rfc3339() -> (s: String) {
    chrono::Utc::now().to_rfc3339()
}

/// The current time in microseconds since the Unix epoch
/// (`chrono::Utc::now().timestamp_micros()`). The result depends on the clock;
/// nothing is stated of it.
#[verifier::external_body]
pub(crate) fn now_micros() -> (t: i64) {
    chrono::Utc::now().timestamp_micros()
}

} // verus!
