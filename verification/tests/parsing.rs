use pastebin::config::Config;
use pastebin::decimal::parse_unsigned;
use pastebin::helpers::{is_valid_bcrypt_hash, token_for_lookup};
use pastebin::ids::{id_from_path, parse_decimal_id, parse_unique_id, unique_id_from_response, IdServiceError};
use pastebin::view_model::models::UserLoginRequest;
use uuid::Uuid;

fn hash_with(prefix: &str) -> String {
    let mut h = String::from(prefix);
    while h.len() < 60 {
        h.push('a');
    }
    h
}

#[test]
fn parse_unsigned_grammar() {
    assert_eq!(parse_unsigned(b"0", 255), Some(0));
    assert_eq!(parse_unsigned(b"255", 255), Some(255));
    assert_eq!(parse_unsigned(b"256", 255), None);
    assert_eq!(parse_unsigned(b"+17", 255), Some(17));
    assert_eq!(parse_unsigned(b"+", 255), None);
    assert_eq!(parse_unsigned(b"", 255), None);
    assert_eq!(parse_unsigned(b"-1", 255), None);
    assert_eq!(parse_unsigned(b"0007", 255), Some(7));
    assert_eq!(parse_unsigned(b"1 ", 255), None);
    for s in ["0", "12", "+3", "", "+", "-0", "300", "99999", "1x", "00000000000000000000000000000255"] {
        assert_eq!(parse_unsigned(s.as_bytes(), 255).map(|v| v as u8), s.parse::<u8>().ok());
    }
}

#[test]
fn bcrypt_valid_cost() {
    let h = hash_with("$2b$12$");
    assert_eq!(h.len(), 60);
    assert_eq!(is_valid_bcrypt_hash(h), Some(12));
    assert_eq!(is_valid_bcrypt_hash(hash_with("$2b$04$")), Some(4));
    assert_eq!(is_valid_bcrypt_hash(hash_with("$2b$+9$")), Some(9));
}

#[test]
fn bcrypt_rejects() {
    assert_eq!(is_valid_bcrypt_hash(hash_with("$2a$12$")), None);
    assert_eq!(is_valid_bcrypt_hash(String::from("$2b$12$short")), None);
    assert_eq!(is_valid_bcrypt_hash(hash_with("$2b$300$")), None);
    assert_eq!(is_valid_bcrypt_hash(hash_with("$2b$$")), None);
    // no third `$`: the cost field runs to the end and is not a number
    assert_eq!(is_valid_bcrypt_hash(hash_with("$2b$1")), None);
    let mut long = hash_with("$2b$12$");
    long.push('a');
    assert_eq!(is_valid_bcrypt_hash(long), None);
    // 60 bytes but fewer characters
    let mut multi = String::from("$2b$12$");
    while multi.len() < 58 {
        multi.push('a');
    }
    multi.push('é');
    assert_eq!(multi.len(), 60);
    assert_eq!(is_valid_bcrypt_hash(multi), Some(12));
}

#[test]
fn bcrypt_cost_field_up_to_end() {
    let mut h = String::from("$2b$");
    while h.len() < 60 {
        h.push('1');
    }
    assert_eq!(is_valid_bcrypt_hash(h), None);
    let mut h = String::from("$2b$");
    for _ in 0..56 {
        h.push('0');
    }
    assert_eq!(is_valid_bcrypt_hash(h), Some(0));
}

#[test]
fn config_from_settings() {
    let c = Config::new("14", "30", "5000", "100", "25");
    assert_eq!(c, Config { bcrypt_rounds: 14, max_title_length: 30, max_content_kb: 5000, token_size: 100, max_syntax_length: 25 });
    let d = Config::new("x", "", "70000", "300", "-1");
    assert_eq!(d, Config { bcrypt_rounds: 12, max_title_length: 20, max_content_kb: 10000, token_size: 150, max_syntax_length: 20 });
}

#[test]
fn token_length_check() {
    let c = Config::new("12", "20", "10000", "4", "20");
    assert!(c.accepts_token_length("abcd"));
    assert!(!c.accepts_token_length("abc"));
    assert!(!c.accepts_token_length("abcé"));
    assert_eq!(token_for_lookup(Some("wxyz"), &c), Some("wxyz"));
    assert_eq!(token_for_lookup(Some("wxyz1"), &c), None);
    assert_eq!(token_for_lookup(None, &c), None);
}

#[test]
fn id_paths() {
    assert_eq!(id_from_path("42"), Some(42));
    assert_eq!(id_from_path("0"), None);
    assert_eq!(id_from_path("abc"), None);
    assert_eq!(id_from_path("+5"), Some(5));
    assert_eq!(id_from_path("-5"), None);
    assert_eq!(id_from_path("340282366920938463463374607431768211455"), Some(u128::MAX));
    assert_eq!(id_from_path("340282366920938463463374607431768211456"), None);
    assert_eq!(parse_decimal_id("916132831"), Some(916132831));
}

#[test]
fn unique_id_answers() {
    assert_eq!(parse_unique_id(true, "123"), Ok(123));
    assert_eq!(parse_unique_id(false, "123"), Err(IdServiceError::Status));
    assert_eq!(parse_unique_id(true, "12a"), Err(IdServiceError::Parse));
    assert_eq!(parse_unique_id(true, "123\n"), Err(IdServiceError::Parse));
    assert_eq!(unique_id_from_response(true, "14776336"), Ok(Uuid::from_u128(14776336)));
    assert_ne!(unique_id_from_response(true, "14776336"), Ok(Uuid::from_u128(14776337)));
    assert_eq!(unique_id_from_response(false, "1"), Err(IdServiceError::Status));
    assert_eq!(unique_id_from_response(true, ""), Err(IdServiceError::Parse));
}

#[test]
fn login_uuid() {
    let r = UserLoginRequest { user_id: 0x1234 };
    assert_eq!(r.user_uuid(), Uuid::from_u128(0x1234));
    assert_eq!(r.user_uuid().as_u128(), 0x1234);
}

#[test]
fn decimal_ids_read_back() {
    for v in [0u128, 1, 9, 10, 61, 62, 14776336, 916132831, u128::MAX / 3, u128::MAX] {
        assert_eq!(parse_decimal_id(&format!("{}", v)), Some(v));
        assert_eq!(parse_unique_id(true, &format!("{}", v)), Ok(v));
    }
}
