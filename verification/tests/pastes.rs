use pastebin::api::{paste_read_action, validate_create_paste, AcceptedPaste, PasteReadAction, PasteRequestError, Timestamp};
use pastebin::config::Config;
use pastebin::handlers::paste_handlers::{self, ValidatedPaste};
use pastebin::models::paste_vm;
use pastebin::schema::{is_blank_query, schema_queries};
use pastebin::view_model::models::CreatePasteRequest;

fn config() -> Config {
    Config::new("12", "20", "100", "150", "10")
}

fn request() -> CreatePasteRequest {
    CreatePasteRequest {
        title: String::from("hello"),
        content: "c".repeat(24),
        syntax: Some(String::from("rust")),
        password: false,
        expire: Some(600),
        burn: None,
    }
}

fn signed() -> paste_vm::CreatePasteRequest {
    paste_vm::CreatePasteRequest {
        title: String::from("hello"),
        signature: "s".repeat(24),
        content: "c".repeat(100),
        syntax: None,
        expire: Some(60),
        burn: Some(true),
    }
}

#[test]
fn accepted_paste() {
    assert_eq!(validate_create_paste(&request(), &config()), Ok(AcceptedPaste { expire_seconds: Some(600), burn: false }));
    let mut r = request();
    r.expire = Some(0);
    r.burn = Some(true);
    assert_eq!(validate_create_paste(&r, &config()), Ok(AcceptedPaste { expire_seconds: None, burn: true }));
    r.expire = Some(31536000);
    assert_eq!(validate_create_paste(&r, &config()), Ok(AcceptedPaste { expire_seconds: Some(31536000), burn: true }));
}

#[test]
fn refused_pastes_in_order() {
    let c = config();
    let mut r = request();
    r.title = "t".repeat(21);
    r.content = String::new();
    assert_eq!(validate_create_paste(&r, &c), Err(PasteRequestError::TitleTooLong));
    let mut r = request();
    r.content = "c".repeat(23);
    assert_eq!(validate_create_paste(&r, &c), Err(PasteRequestError::ContentSize));
    r.content = "c".repeat(101);
    assert_eq!(validate_create_paste(&r, &c), Err(PasteRequestError::ContentSize));
    let mut r = request();
    r.expire = Some(599);
    r.syntax = Some("x".repeat(11));
    assert_eq!(validate_create_paste(&r, &c), Err(PasteRequestError::Expiration));
    r.expire = Some(-600);
    assert_eq!(validate_create_paste(&r, &c), Err(PasteRequestError::Expiration));
    r.expire = Some(31536001);
    assert_eq!(validate_create_paste(&r, &c), Err(PasteRequestError::Expiration));
    r.expire = None;
    assert_eq!(validate_create_paste(&r, &c), Err(PasteRequestError::SyntaxTooLong));
}

#[test]
fn signed_paste_decisions() {
    let c = config();
    assert_eq!(
        paste_handlers::validate_create_paste(&signed(), &c, 60, 3600),
        Ok(ValidatedPaste { expire_seconds: Some(60), duration: 60, burn: true })
    );
    let mut r = signed();
    r.expire = None;
    r.burn = None;
    assert_eq!(
        paste_handlers::validate_create_paste(&r, &c, 60, 3600),
        Ok(ValidatedPaste { expire_seconds: None, duration: 0, burn: false })
    );
    assert_eq!(paste_handlers::validate_create_paste(&signed(), &c, 61, 3600), Err(PasteRequestError::Expiration));
    let mut r = signed();
    r.signature = "s".repeat(23);
    r.syntax = Some("x".repeat(11));
    assert_eq!(paste_handlers::validate_create_paste(&r, &c, 60, 3600), Err(PasteRequestError::InvalidSignature));
    r.signature = "s".repeat(24);
    assert_eq!(paste_handlers::validate_create_paste(&r, &c, 60, 3600), Err(PasteRequestError::SyntaxTooLong));
}

#[test]
fn reading_pastes() {
    let now = Timestamp { secs: 1000, nanos: 500 };
    let past = Timestamp { secs: 1000, nanos: 499 };
    let later = Timestamp { secs: 1001, nanos: 0 };
    assert_eq!(paste_read_action(Some(past), now, false, true), PasteReadAction::Expired { by_owner: true });
    assert_eq!(paste_read_action(Some(past), now, true, false), PasteReadAction::Expired { by_owner: false });
    assert_eq!(paste_read_action(Some(now), now, true, false), PasteReadAction::Burn { by_owner: false });
    assert_eq!(paste_read_action(Some(later), now, false, true), PasteReadAction::CountView);
    assert_eq!(paste_read_action(None, now, true, true), PasteReadAction::Burn { by_owner: true });
    assert_eq!(paste_read_action(None, now, false, false), PasteReadAction::CountView);
}

#[test]
fn schema_statements() {
    let q = schema_queries("CREATE A; CREATE B;\n  ;");
    assert_eq!(q, vec![String::from("CREATE A"), String::from(" CREATE B")]);
    assert_eq!(schema_queries(""), Vec::<String>::new());
    assert_eq!(schema_queries("x"), vec![String::from("x")]);
    assert_eq!(schema_queries(";;é;\u{a0};y"), vec![String::from("é"), String::from("y")]);
    assert!(is_blank_query(" \t\n\u{a0}\u{3000}"));
    assert!(is_blank_query(""));
    assert!(!is_blank_query(" a "));
    let text = "CREATE KEYSPACE k;\n\nCREATE TABLE t (a int);\n";
    let expected: Vec<String> = text.split(';').filter(|s| !s.trim().is_empty()).map(String::from).collect();
    assert_eq!(schema_queries(text), expected);
}

#[test]
fn limits_are_inclusive_and_count_bytes() {
    let c = config();
    let mut r = request();
    r.title = "t".repeat(20);
    r.content = "c".repeat(100);
    r.syntax = Some("x".repeat(10));
    assert!(validate_create_paste(&r, &c).is_ok());
    r.title = "é".repeat(10);
    assert!(validate_create_paste(&r, &c).is_ok());
    r.title = "é".repeat(11);
    assert_eq!(validate_create_paste(&r, &c), Err(PasteRequestError::TitleTooLong));
    let mut r = request();
    r.content = "é".repeat(12);
    assert!(validate_create_paste(&r, &c).is_ok());
    r.content = "é".repeat(51);
    assert_eq!(validate_create_paste(&r, &c), Err(PasteRequestError::ContentSize));
}
