//! Identifiers as the services exchange them: decimal text on the wire,
//! UUIDs in storage.
use crate::decimal::{decimal_bytes, lemma_decimal_bytes, lemma_decimal_round_trip, parse_unsigned, parse_unsigned_spec};
use uuid::Uuid;
use vstd::prelude::*;
use vstd::utf8::{encode_utf8, is_ascii_chars, is_ascii_chars_encode_utf8};

verus! {

#[verifier::external_type_specification]
#[verifier::external_body]
pub struct ExUuid(Uuid);

/// The UUID whose 128 bits, read big-endian, are `v`.
pub uninterp spec fn uuid_from_u128(v: u128) -> Uuid;

/// Calls `uuid::Uuid::from_u128`, which lays `v` out as the UUID's sixteen
/// bytes, most significant first. Its result is claimed to depend on `v`
/// alone; nothing more is claimed of it.
#[verifier::external_body]
pub(crate) fn make_uuid(v: u128) -> (r: Uuid)
    ensures
        r == uuid_from_u128(v),
{
    Uuid::from_u128(v)
}

/// The value of a decimal identifier: `Some` exactly when the text parses as
/// a `u128`.
pub open spec fn decimal_id(text: Seq<char>) -> Option<u128> {
    match parse_unsigned_spec(encode_utf8(text), u128::MAX as nat) {
        Some(v) => Some(v as u128),
        None => None,
    }
}

/// The text of the decimal writing of `v`.
pub open spec fn decimal_text(v: nat) -> Seq<char> {
    decimal_bytes(v).map_values(|b: u8| b as char)
}

/// The text of a decimal writing encodes to the writing's bytes.
pub proof fn lemma_decimal_text_bytes(v: nat)
    ensures
        encode_utf8(decimal_text(v)) == decimal_bytes(v),
{
    let b = decimal_bytes(v);
    let t = decimal_text(v);
    lemma_decimal_bytes(v);
    assert(is_ascii_chars(t)) by {
        assert forall|i: int| 0 <= i < t.len() implies '\0' <= #[trigger] t[i] <= '\u{7f}' by {
            assert(48 <= b[i] <= 57);
        }
    }
    is_ascii_chars_encode_utf8(t);
    assert(encode_utf8(t) =~= b) by {
        assert forall|i: int| 0 <= i < b.len() implies encode_utf8(t)[i] == b[i] by {
            assert(48 <= b[i] <= 57);
        }
    }
}

/// An identifier written in decimal, as the id service writes identifiers
/// into its answers and the paths it is given, is read back as the same
/// identifier.
pub proof fn lemma_decimal_id_round_trip(v: u128)
    ensures
        decimal_id(decimal_text(v as nat)) == Some(v),
{
    lemma_decimal_text_bytes(v as nat);
    lemma_decimal_round_trip(v as nat, u128::MAX as nat);
}

/// Parses a decimal identifier.
pub fn parse_decimal_id(text: &str) -> (r: Option<u128>)
    ensures
        r == decimal_id(text@),
{
    parse_unsigned(text.as_bytes(), u128::MAX)
}

/// The identifier that a `PUT /id/{id}` request gives back to the pool:
/// the path segment as a positive decimal `u128`, or `None`, which the
/// service answers with `400 Bad Request`.
pub fn id_from_path(id_str: &str) -> (r: Option<u128>)
    ensures
        r == (match decimal_id(id_str@) {
            Some(v) => if v > 0 {
                Some(v)
            } else {
                None
            },
            None => None,
        }),
        r matches Some(v) ==> v > 0,
        forall|v: u128| v > 0 && #[trigger] decimal_text(v as nat) == id_str@ ==> r == Some(v),
        id_str@ == decimal_text(0) ==> r is None,
{
    proof {
        assert forall|v: u128| v > 0 && #[trigger] decimal_text(v as nat) == id_str@ implies decimal_id(
            id_str@,
        ) == Some(v) by {
            lemma_decimal_id_round_trip(v);
        }
        lemma_decimal_id_round_trip(0);
    }
    match parse_decimal_id(id_str) {
        Some(id) => if id > 0 {
            Some(id)
        } else {
            None
        },
        None => None,
    }
}

/// Why the id-generation service gave no identifier.
#[derive(Clone, Copy, Debug, PartialEq, Eq, Structural)]
pub enum IdServiceError {
    /// The service answered with a status other than success.
    Status,
    /// The body of the answer is not a decimal `u128`.
    Parse,
}

/// The identifier in an answer of the id-generation service, given whether
/// its status was a success and its body.
pub fn parse_unique_id(status_success: bool, body: &str) -> (r: Result<u128, IdServiceError>)
    ensures
        !status_success ==> r == Err::<u128, IdServiceError>(IdServiceError::Status),
        status_success ==> r == (match decimal_id(body@) {
            Some(v) => Ok(v),
            None => Err(IdServiceError::Parse),
        }),
        forall|v: u128|
            status_success && #[trigger] decimal_text(v as nat) == body@ ==> r == Ok::<
                u128,
                IdServiceError,
            >(v),
{
    proof {
        assert forall|v: u128| #[trigger] decimal_text(v as nat) == body@ implies decimal_id(body@)
            == Some(v) by {
            lemma_decimal_id_round_trip(v);
        }
    }
    if !status_success {
        return Err(IdServiceError::Status);
    }
    match parse_decimal_id(body) {
        Some(v) => Ok(v),
        None => Err(IdServiceError::Parse),
    }
}

/// The UUID made from an answer of the id-generation service.
pub fn unique_id_from_response(status_success: bool, body: &str) -> (r: Result<Uuid, IdServiceError>)
    ensures
        !status_success ==> r == Err::<Uuid, IdServiceError>(IdServiceError::Status),
        status_success ==> r == (match decimal_id(body@) {
            Some(v) => Ok(uuid_from_u128(v)),
            None => Err(IdServiceError::Parse),
        }),
{
    match parse_unique_id(status_success, body) {
        Ok(v) => Ok(make_uuid(v)),
        Err(e) => Err(e),
    }
}

} // verus!
