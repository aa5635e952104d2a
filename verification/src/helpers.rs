//! Checks on credentials that clients present.
use crate::config::Config;
use crate::decimal::{
    decimal_bytes, lemma_decimal_bytes, lemma_decimal_round_trip, parse_unsigned_in,
    parse_unsigned_spec,
};
use vstd::prelude::*;
use vstd::utf8::encode_utf8;

verus! {

/// ASCII code of `$`, the separator of the fields of a bcrypt hash.
pub const DOLLAR: u8 = 36;

/// Length in bytes of a bcrypt hash.
pub const BCRYPT_HASH_LEN: usize = 60;

/// The bytes of `$2b$`, with which hashes of the supported bcrypt version
/// begin.
pub open spec fn bcrypt_prefix() -> Seq<u8> {
    seq![36u8, 50u8, 98u8, 36u8]
}

/// The index of the first `$` at or after `from`, or the length of `b` when
/// there is none.
pub open spec fn field_end(b: Seq<u8>, from: int) -> int
    decreases b.len() - from,
{
    if from < 0 || from >= b.len() {
        b.len() as int
    } else if b[from] == DOLLAR {
        from
    } else {
        field_end(b, from + 1)
    }
}

/// The third `$`-separated field of a hash that starts with `$2b$`: the
/// bytes from index 4 up to the next `$`.
pub open spec fn cost_field(b: Seq<u8>) -> Seq<u8> {
    b.subrange(4, field_end(b, 4))
}

/// The cost of a bcrypt hash given by its bytes: `Some` exactly when it is
/// 60 bytes long, starts with `$2b$` and its cost field parses as a `u8`.
pub open spec fn bcrypt_cost(b: Seq<u8>) -> Option<u8> {
    if b.len() == BCRYPT_HASH_LEN && b.take(4) == bcrypt_prefix() {
        match parse_unsigned_spec(cost_field(b), 255) {
            Some(v) => Some(v as u8),
            None => None,
        }
    } else {
        None
    }
}

proof fn lemma_field_end_bounds(b: Seq<u8>, from: int)
    requires
        0 <= from <= b.len(),
    ensures
        from <= field_end(b, from) <= b.len(),
        forall|j: int| from <= j < field_end(b, from) ==> b[j] != DOLLAR,
        field_end(b, from) < b.len() ==> b[field_end(b, from)] == DOLLAR,
    decreases b.len() - from,
{
    if from < b.len() && b[from] != DOLLAR {
        lemma_field_end_bounds(b, from + 1);
    }
}

proof fn lemma_field_end_at(b: Seq<u8>, from: int, k: int)
    requires
        0 <= from <= k <= b.len(),
        forall|j: int| from <= j < k ==> b[j] != DOLLAR,
        k < b.len() ==> b[k] == DOLLAR,
    ensures
        field_end(b, from) == k,
    decreases k - from,
{
    if from < k {
        lemma_field_end_at(b, from + 1, k);
    }
}

/// Only a 60-byte text that starts with `$2b$` has a cost.
pub proof fn lemma_bcrypt_cost_shape(b: Seq<u8>)
    ensures
        bcrypt_cost(b) is Some ==> b.len() == 60 && b[0] == 36 && b[1] == 50 && b[2] == 98 && b[3]
            == 36,
{
    if bcrypt_cost(b) is Some {
        assert(b.take(4)[0] == b[0] && b.take(4)[1] == b[1] && b.take(4)[2] == b[2] && b.take(4)[3]
            == b[3]);
    }
}

/// A 60-byte hash `$2b$<cost>$<rest>` whose cost is written in decimal has
/// that cost when it fits a `u8`, and none when it does not.
pub proof fn lemma_bcrypt_cost_reads_cost(cost: nat, rest: Seq<u8>)
    requires
        4 + decimal_bytes(cost).len() + 1 + rest.len() == 60,
    ensures
        bcrypt_cost(seq![36u8, 50u8, 98u8, 36u8] + decimal_bytes(cost) + seq![36u8] + rest) == (
        if cost <= 255 {
            Some(cost as u8)
        } else {
            None
        }),
{
    let d = decimal_bytes(cost);
    let b = seq![36u8, 50u8, 98u8, 36u8] + d + seq![36u8] + rest;
    lemma_decimal_bytes(cost);
    assert(b.take(4) =~= bcrypt_prefix());
    let k: int = 4 + d.len() as int;
    assert forall|j: int| 4 <= j < k implies b[j] != DOLLAR by {
        assert(b[j] == d[j - 4]);
    }
    assert(b[k] == DOLLAR);
    lemma_field_end_at(b, 4, k);
    assert(cost_field(b) =~= d);
    if cost <= 255 {
        lemma_decimal_round_trip(cost, 255);
    } else {
        assert(d[0] != 43);
    }
}

/// Finds the index of the first `$` at or after `from`.
fn find_field_end(b: &[u8], from: usize) -> (r: usize)
    requires
        from <= b@.len(),
    ensures
        r == field_end(b@, from as int),
{
    let mut i = from;
    while i < b.len() && b[i] != DOLLAR
        invariant
            from <= i <= b@.len(),
            field_end(b@, from as int) == field_end(b@, i as int),
        decreases b@.len() - i,
    {
        i = i + 1;
    }
    i
}

/// The cost of a bcrypt hash of version `2b`, or `None` when `hash` is not
/// one.
pub fn is_valid_bcrypt_hash(hash: String) -> (r: Option<u8>)
    ensures
        r == bcrypt_cost(encode_utf8(hash@)),
{
    let bytes = hash.as_str().as_bytes();
    if bytes.len() != BCRYPT_HASH_LEN {
        return None;
    }
    if !(bytes[0] == DOLLAR && bytes[1] == 50 && bytes[2] == 98 && bytes[3] == DOLLAR) {
        assert(bytes@.take(4) != bcrypt_prefix()) by {
            if bytes@.take(4) == bcrypt_prefix() {
                assert(bytes@.take(4)[1] == 50u8);
            }
        }
        return None;
    }
    assert(bytes@.take(4) =~= bcrypt_prefix());
    let end = find_field_end(bytes, 4);
    proof {
        lemma_field_end_bounds(bytes@, 4);
    }
    match parse_unsigned_in(bytes, 4, end, 255) {
        Some(v) => Some(v as u8),
        None => None,
    }
}

/// The token to look the user up by, taken from the `Authorization` header
/// when it is present, readable and of the configured token length.
pub fn token_for_lookup<'a>(header: Option<&'a str>, config: &Config) -> (r: Option<&'a str>)
    ensures
        r == (match header {
            Some(t) => if encode_utf8(t@).len() == config.token_size {
                Some(t)
            } else {
                None
            },
            None => None,
        }),
{
    match header {
        Some(token) => if config.accepts_token_length(token) {
            Some(token)
        } else {
            None
        },
        None => None,
    }
}

} // verus!
