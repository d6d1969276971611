//! Value codec: renders a low-level column value as a transport-safe
//! string. Null becomes the literal `NULL`, integers and reals their
//! decimal text, text passes through, and blobs are base64-encoded.

use vstd::prelude::*;
use base64::Engine;
use crate::text::{int_digits, i64_to_dec_string};

verus! {

/// A low-level column value as the storage engine hands it to the
/// mutation hook. A real number is carried by its canonical decimal
/// text, rendered at the engine boundary, so that the codec's output
/// is a plain function of this value.
pub enum ColumnValue {
    Null,
    Integer(i64),
    Real(String),
    Text(String),
    Blob(Vec<u8>),
}

/// The 64 characters of the standard base64 alphabet, in value order.
pub open spec fn base64_alphabet() -> Seq<char> {
    "ABCDEFGHIJKLMNOPQRSTUVWXYZabcdefghijklmnopqrstuvwxyz0123456789+/"@
}

/// The alphabet character for a 6-bit group.
pub open spec fn base64_char(v: int) -> char {
    base64_alphabet()[v]
}

/// Standard padded base64 text of a byte sequence: each group of three
/// bytes becomes four alphabet characters; a final group of one or two
/// bytes is completed with `=` padding.
pub open spec fn base64_of(s: Seq<u8>) -> Seq<char>
    decreases s.len(),
{
    if s.len() == 0 {
        Seq::empty()
    } else if s.len() == 1 {
        let b0 = s[0] as int;
        seq![
            base64_char(b0 / 4),
            base64_char((b0 % 4) * 16),
            '=',
            '=',
        ]
    } else if s.len() == 2 {
        let b0 = s[0] as int;
        let b1 = s[1] as int;
        seq![
            base64_char(b0 / 4),
            base64_char((b0 % 4) * 16 + b1 / 16),
            base64_char((b1 % 16) * 4),
            '=',
        ]
    } else {
        let b0 = s[0] as int;
        let b1 = s[1] as int;
        let b2 = s[2] as int;
        seq![
            base64_char(b0 / 4),
            base64_char((b0 % 4) * 16 + b1 / 16),
            base64_char((b1 % 16) * 4 + b2 / 64),
            base64_char(b2 % 64),
        ] + base64_of(s.skip(3))
    }
}

/// Relies on `base64::engine::Engine::encode` with the
/// `general_purpose::STANDARD` engine: standard alphabet, `=` padding.
#[verifier::external_body]
fn base64_encode(bytes: &Vec<u8>) -> (r: String)
    ensures
        r@ == base64_of(bytes@),
{
    base64::engine::general_purpose::STANDARD.encode(bytes)
}

/// The transport string for a column value.
pub open spec fn encoded_value(v: ColumnValue) -> Seq<char> {
    match v {
        ColumnValue::Null => "NULL"@,
        ColumnValue::Integer(i) => int_digits(i as int),
        ColumnValue::Real(r) => r@,
        ColumnValue::Text(t) => t@,
        ColumnValue::Blob(b) => base64_of(b@),
    }
}

/// Renders a column value as its transport string. Every input has a
/// defined output; there is no failure path.
pub fn encode(v: &ColumnValue) -> (r: String)
    ensures
        r@ == encoded_value(*v),
{
    match v {
        ColumnValue::Null => String::from_str("NULL"),
        ColumnValue::Integer(i) => i64_to_dec_string(*i),
        ColumnValue::Real(r) => r.clone(),
        ColumnValue::Text(t) => t.clone(),
        ColumnValue::Blob(b) => base64_encode(b),
    }
}

} // verus!
