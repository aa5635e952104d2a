//! The server's limits, read from the environment.
use crate::decimal::{lemma_decimal_round_trip, parse_unsigned, parse_unsigned_spec};
use crate::ids::{decimal_text, lemma_decimal_text_bytes};
use vstd::prelude::*;
use vstd::utf8::encode_utf8;

verus! {

/// Limits that the paste server applies to requests.
#[derive(Clone, Copy, Debug, PartialEq, Eq, Structural)]
pub struct Config {
    pub bcrypt_rounds: u8,
    pub max_title_length: u8,
    pub max_content_kb: u16,
    pub token_size: u8,
    pub max_syntax_length: u8,
}

/// The value of a setting: the text parsed as an integer no larger than
/// `max`, or `default` when it does not parse.
pub open spec fn setting_value(text: Seq<char>, max: nat, default: nat) -> nat {
    match parse_unsigned_spec(encode_utf8(text), max) {
        Some(v) => v,
        None => default,
    }
}

/// A setting written in decimal is read as the value written, whenever
/// that value fits the field, whatever the default.
pub proof fn lemma_setting_reads_decimal(v: nat, max: nat, default: nat)
    requires
        v <= max,
    ensures
        setting_value(decimal_text(v), max, default) == v,
{
    lemma_decimal_text_bytes(v);
    lemma_decimal_round_trip(v, max);
}

/// Reads one setting; see `setting_value`.
fn parse_setting(text: &str, max: u128, default: u128) -> (r: u128)
    requires
        default <= max,
    ensures
        r == setting_value(text@, max as nat, default as nat),
{
    match parse_unsigned(text.as_bytes(), max) {
        Some(v) => v,
        None => default,
    }
}

impl Config {
    /// Builds the configuration from the texts of the settings
    /// `BCRYPT_ROUNDS`, `MAX_TITLE_LENGTH`, `MAX_CONTENT_KB`, `TOKEN_SIZE` and
    /// `MAX_SYNTAX_LENGTH`; a text that does not parse as the field's type
    /// gives the default 12, 20, 10000, 150 or 20.
    pub fn new(
        bcrypt_rounds: &str,
        max_title_length: &str,
        max_content_kb: &str,
        token_size: &str,
        max_syntax_length: &str,
    ) -> (c: Config)
        ensures
            c.bcrypt_rounds == setting_value(bcrypt_rounds@, 255, 12),
            c.max_title_length == setting_value(max_title_length@, 255, 20),
            c.max_content_kb == setting_value(max_content_kb@, 65535, 10000),
            c.token_size == setting_value(token_size@, 255, 150),
            c.max_syntax_length == setting_value(max_syntax_length@, 255, 20),
            forall|v: u8| #[trigger] decimal_text(v as nat) == bcrypt_rounds@ ==> c.bcrypt_rounds == v,
            forall|v: u8|
                #[trigger] decimal_text(v as nat) == max_title_length@ ==> c.max_title_length == v,
            forall|v: u16|
                #[trigger] decimal_text(v as nat) == max_content_kb@ ==> c.max_content_kb == v,
            forall|v: u8| #[trigger] decimal_text(v as nat) == token_size@ ==> c.token_size == v,
            forall|v: u8|
                #[trigger] decimal_text(v as nat) == max_syntax_length@ ==> c.max_syntax_length == v,
    {
        proof {
            assert forall|v: u8|
                #![trigger decimal_text(v as nat)]
                setting_value(decimal_text(v as nat), 255, 12) == v && setting_value(
                    decimal_text(v as nat),
                    255,
                    20,
                ) == v && setting_value(decimal_text(v as nat), 255, 150) == v by {
                lemma_setting_reads_decimal(v as nat, 255, 12);
                lemma_setting_reads_decimal(v as nat, 255, 20);
                lemma_setting_reads_decimal(v as nat, 255, 150);
            }
            assert forall|v: u16|
                #![trigger decimal_text(v as nat)]
                setting_value(decimal_text(v as nat), 65535, 10000) == v by {
                lemma_setting_reads_decimal(v as nat, 65535, 10000);
            }
        }
        Config {
            bcrypt_rounds: parse_setting(bcrypt_rounds, 255, 12) as u8,
            max_title_length: parse_setting(max_title_length, 255, 20) as u8,
            max_content_kb: parse_setting(max_content_kb, 65535, 10000) as u16,
            token_size: parse_setting(token_size, 255, 150) as u8,
            max_syntax_length: parse_setting(max_syntax_length, 255, 20) as u8,
        }
    }

    /// Whether a presented token has the length that tokens are issued with.
    pub fn accepts_token_length(&self, token: &str) -> (r: bool)
        ensures
            r == (encode_utf8(token@).len() == self.token_size),
    {
        token.as_bytes().len() == self.token_size as usize
    }
}

} // verus!
