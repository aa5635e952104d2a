//! Decimal parsing of unsigned integers, with the grammar of std's
//! `str::parse` for unsigned types: an optional `+`, then one or more ASCII
//! digits, whose value must fit the target type.
use vstd::prelude::*;

verus! {

/// ASCII code of `+`.
pub const PLUS: u8 = 43;

/// ASCII code of `0`.
pub const DIGIT_ZERO: u8 = 48;

pub open spec fn is_digit(b: u8) -> bool {
    48 <= b <= 57
}

pub open spec fn all_digits(s: Seq<u8>) -> bool {
    forall|i: int| 0 <= i < s.len() ==> is_digit(#[trigger] s[i])
}

/// The value of a string of decimal digits, most significant first.
pub open spec fn digits_value(s: Seq<u8>) -> nat
    decreases s.len(),
{
    if s.len() == 0 {
        0
    } else {
        digits_value(s.drop_last()) * 10 + (s.last() - 48) as nat
    }
}

/// The digits that an unsigned parse reads: one leading `+` is skipped.
pub open spec fn unsigned_digits(s: Seq<u8>) -> Seq<u8> {
    if s.len() > 0 && s[0] == PLUS {
        s.drop_first()
    } else {
        s
    }
}

/// What parsing `s` as an unsigned integer no larger than `max` gives.
pub open spec fn parse_unsigned_spec(s: Seq<u8>, max: nat) -> Option<nat> {
    let d = unsigned_digits(s);
    if d.len() > 0 && all_digits(d) && digits_value(d) <= max {
        Some(digits_value(d))
    } else {
        None
    }
}

/// A longer string of digits is worth at least as much as its prefix.
pub proof fn lemma_digits_value_prefix(s: Seq<u8>, k: int)
    requires
        all_digits(s),
        0 <= k <= s.len(),
    ensures
        digits_value(s.take(k)) <= digits_value(s),
    decreases s.len(),
{
    if k < s.len() {
        let t = s.drop_last();
        assert(all_digits(t));
        lemma_digits_value_prefix(t, k);
        assert(t.take(k) =~= s.take(k));
        assert(digits_value(t) <= digits_value(s));
    } else {
        assert(s.take(k) =~= s);
    }
}

/// The decimal writing of `v`: its digits, most significant first, with no
/// leading zero, as `format!("{}", v)` writes an unsigned integer.
pub open spec fn decimal_bytes(v: nat) -> Seq<u8>
    decreases v,
{
    if v < 10 {
        seq![(48 + v) as u8]
    } else {
        decimal_bytes(v / 10).push((48 + v % 10) as u8)
    }
}

/// The decimal writing of `v` is a non-empty string of digits worth `v`.
pub proof fn lemma_decimal_bytes(v: nat)
    ensures
        decimal_bytes(v).len() > 0,
        all_digits(decimal_bytes(v)),
        digits_value(decimal_bytes(v)) == v,
    decreases v,
{
    if v >= 10 {
        lemma_decimal_bytes(v / 10);
        let d = decimal_bytes(v);
        assert(d.drop_last() =~= decimal_bytes(v / 10));
        assert(d.last() == (48 + v % 10) as u8);
        assert(v == (v / 10) * 10 + v % 10);
        assert(digits_value(d) == digits_value(d.drop_last()) * 10 + (d.last() - 48) as nat);
    } else {
        assert(digits_value(decimal_bytes(v)) == digits_value(decimal_bytes(v).drop_last()) * 10
            + (decimal_bytes(v).last() - 48) as nat);
        assert(decimal_bytes(v).drop_last() =~= Seq::<u8>::empty());
    }
}

/// Parsing reads back what decimal writing writes: the decimal writing of
/// any `v` no larger than `max` parses as `v`.
pub proof fn lemma_decimal_round_trip(v: nat, max: nat)
    requires
        v <= max,
    ensures
        parse_unsigned_spec(decimal_bytes(v), max) == Some(v),
{
    lemma_decimal_bytes(v);
    assert(is_digit(decimal_bytes(v)[0]));
}

/// A parse that succeeds reads a non-empty text whose bytes, after one
/// optional leading `+`, are all digits, and gives a value no larger than
/// `max`; an empty text, a lone `+` and a text that starts with `-` do not
/// parse; a `+` in front of the decimal writing of `v` still reads as `v`.
pub proof fn lemma_parse_unsigned_accepts(s: Seq<u8>, v: nat, max: nat)
    ensures
        parse_unsigned_spec(s, max) is Some ==> parse_unsigned_spec(s, max)->0 <= max && s.len() > 0
            && forall|i: int|
            (if s[0] == 43 {
                1int
            } else {
                0int
            }) <= i < s.len() ==> 48 <= #[trigger] s[i] <= 57,
        parse_unsigned_spec(Seq::<u8>::empty(), max) is None,
        parse_unsigned_spec(seq![43u8], max) is None,
        s.len() > 0 && s[0] == 45 ==> parse_unsigned_spec(s, max) is None,
        v <= max ==> parse_unsigned_spec(seq![43u8] + decimal_bytes(v), max) == Some(v),
{
    if parse_unsigned_spec(s, max) is Some {
        let d = unsigned_digits(s);
        assert forall|i: int|
            (if s[0] == 43 {
                1int
            } else {
                0int
            }) <= i < s.len() implies 48 <= #[trigger] s[i] <= 57 by {
            if s[0] == 43 {
                assert(s[i] == d[i - 1]);
            } else {
                assert(s[i] == d[i]);
            }
        }
    }
    if s.len() > 0 && s[0] == 45 {
        assert(unsigned_digits(s)[0] == 45);
    }
    assert(seq![43u8].drop_first() =~= Seq::<u8>::empty());
    if v <= max {
        lemma_decimal_bytes(v);
        assert((seq![43u8] + decimal_bytes(v))[0] == 43);
        assert((seq![43u8] + decimal_bytes(v)).drop_first() =~= decimal_bytes(v));
        assert(unsigned_digits(seq![43u8] + decimal_bytes(v)) == decimal_bytes(v));
    }
}

/// Parses `s[lo..hi]` as an unsigned integer no larger than `max`.
pub fn parse_unsigned_in(s: &[u8], lo: usize, hi: usize, max: u128) -> (r: Option<u128>)
    requires
        lo <= hi <= s@.len(),
    ensures
        match parse_unsigned_spec(s@.subrange(lo as int, hi as int), max as nat) {
            Some(v) => r == Some(v as u128),
            None => r is None,
        },
{
    let ghost w = s@.subrange(lo as int, hi as int);
    let mut start = lo;
    if lo < hi && s[lo] == PLUS {
        start = lo + 1;
    }
    let ghost d = unsigned_digits(w);
    assert(d =~= s@.subrange(start as int, hi as int));
    if start == hi {
        return None;
    }
    let mut acc: u128 = 0;
    let mut i = start;
    while i < hi
        invariant
            lo <= start <= i <= hi <= s@.len(),
            d =~= s@.subrange(start as int, hi as int),
            w == s@.subrange(lo as int, hi as int),
            d == unsigned_digits(w),
            d.len() > 0,
            all_digits(d.take(i - start)),
            acc as nat == digits_value(d.take(i - start)),
            acc <= max,
        decreases hi - i,
    {
        let b = s[i];
        if b < DIGIT_ZERO || b > 57 {
            assert(d[i - start] == b);
            return None;
        }
        let digit = (b - DIGIT_ZERO) as u128;
        let ghost next = d.take(i - start + 1);
        assert(next.drop_last() =~= d.take(i - start));
        assert(next.last() == b);
        assert(all_digits(next));
        let scaled = acc.checked_mul(10);
        let value = match scaled {
            Some(m) => m.checked_add(digit),
            None => None,
        };
        match value {
            Some(v) if v <= max => {
                acc = v;
            },
            _ => {
                proof {
                    assert(digits_value(next) > max);
                    if all_digits(d) {
                        lemma_digits_value_prefix(d, i - start + 1);
                    }
                }
                return None;
            },
        }
        i = i + 1;
    }
    assert(d.take(hi - start) =~= d);
    Some(acc)
}

/// Parses the whole of `s` as an unsigned integer no larger than `max`.
pub fn parse_unsigned(s: &[u8], max: u128) -> (r: Option<u128>)
    ensures
        match parse_unsigned_spec(s@, max as nat) {
            Some(v) => r == Some(v as u128),
            None => r is None,
        },
{
    assert(s@.subrange(0, s@.len() as int) =~= s@);
    parse_unsigned_in(s, 0, s.len(), max)
}

} // verus!
