//! Decisions of the paste server's handlers for storing and reading pastes.
use crate::config::Config;
use crate::view_model::models::CreatePasteRequest;
use vstd::prelude::*;
use vstd::utf8::encode_utf8;

verus! {

/// The fewest bytes that a paste's content may have.
pub const MIN_CONTENT_LEN: usize = 24;

/// The shortest lifetime, in seconds, that a paste may be given: 10 minutes.
pub const MIN_EXPIRE_SECONDS: i32 = 600;

/// The longest lifetime, in seconds, that a paste may be given: 365 days.
pub const MAX_EXPIRE_SECONDS: i32 = 31536000;

/// Length in bytes of a text.
pub open spec fn text_len(s: Seq<char>) -> nat {
    encode_utf8(s).len()
}

/// Length in bytes of a text.
pub fn byte_len(s: &str) -> (r: usize)
    ensures
        r == text_len(s@),
        r == encode_utf8(s@).len(),
{
    s.as_bytes().len()
}

/// Why a request to store a paste is refused with `400 Bad Request`.
#[derive(Clone, Copy, Debug, PartialEq, Eq, Structural)]
pub enum PasteRequestError {
    /// The title is longer than the configured limit.
    TitleTooLong,
    /// The content is shorter than `MIN_CONTENT_LEN` bytes or longer than
    /// the configured limit.
    ContentSize,
    /// The lifetime is neither 0 (no expiry) nor within the allowed range.
    Expiration,
    /// The signature is not 24 bytes long.
    InvalidSignature,
    /// The syntax name is longer than the configured limit.
    SyntaxTooLong,
}

/// What an accepted request asks for: a lifetime in seconds, if any, and
/// whether the paste is deleted once read.
#[derive(Clone, Copy, Debug, PartialEq, Eq, Structural)]
pub struct AcceptedPaste {
    pub expire_seconds: Option<i32>,
    pub burn: bool,
}

/// Whether the content length is outside the allowed bounds.
pub open spec fn content_size_refused(content: Seq<char>, config: Config) -> bool {
    text_len(content) > config.max_content_kb || text_len(content) < MIN_CONTENT_LEN
}

/// Whether the syntax name is longer than the configured limit.
pub open spec fn syntax_refused(syntax: Option<String>, config: Config) -> bool {
    match syntax {
        Some(x) => text_len(x@) > config.max_syntax_length,
        None => false,
    }
}

/// Whether a lifetime other than 0 lies outside `[min, max]`.
pub open spec fn expiration_refused(expire: Option<i32>, min: int, max: int) -> bool {
    match expire {
        Some(s) => s != 0 && !(min <= s <= max),
        None => false,
    }
}

/// The lifetime that a request asks for: none when absent or 0.
pub open spec fn requested_lifetime(expire: Option<i32>) -> Option<i32> {
    match expire {
        Some(s) => if s == 0 {
            None
        } else {
            Some(s)
        },
        None => None,
    }
}

/// How a request to store a paste is answered, checking in turn the title,
/// the content, the lifetime and the syntax.
pub open spec fn create_paste_decision(req: CreatePasteRequest, config: Config) -> Result<
    AcceptedPaste,
    PasteRequestError,
> {
    if text_len(req.title@) > config.max_title_length {
        Err(PasteRequestError::TitleTooLong)
    } else if content_size_refused(req.content@, config) {
        Err(PasteRequestError::ContentSize)
    } else if expiration_refused(req.expire, MIN_EXPIRE_SECONDS as int, MAX_EXPIRE_SECONDS as int) {
        Err(PasteRequestError::Expiration)
    } else if syntax_refused(req.syntax, config) {
        Err(PasteRequestError::SyntaxTooLong)
    } else {
        Ok(
            AcceptedPaste {
                expire_seconds: requested_lifetime(req.expire),
                burn: match req.burn {
                    Some(b) => b,
                    None => false,
                },
            },
        )
    }
}

/// The checks of a paste request, stated over the request's own fields: each
/// refusal comes exactly when its check fails after the earlier ones
/// passed (title at most `max_title_length` bytes; content between 24 and
/// `max_content_kb` bytes; lifetime absent, 0, or between 600 and 31536000
/// seconds; syntax name at most `max_syntax_length` bytes), a request that
/// passes them all is accepted, and an accepted request asks for the
/// lifetime it gave (none for 0) and burns after reading exactly when it
/// said `Some(true)`.
pub proof fn lemma_create_paste_checks(req: CreatePasteRequest, config: Config)
    ensures
        (encode_utf8(req.title@).len() > config.max_title_length) <==> create_paste_decision(
            req,
            config,
        ) == Err::<AcceptedPaste, PasteRequestError>(PasteRequestError::TitleTooLong),
        create_paste_decision(req, config) == Err::<AcceptedPaste, PasteRequestError>(
            PasteRequestError::ContentSize,
        ) <==> (encode_utf8(req.title@).len() <= config.max_title_length && (encode_utf8(
            req.content@,
        ).len() > config.max_content_kb || encode_utf8(req.content@).len() < 24)),
        create_paste_decision(req, config) == Err::<AcceptedPaste, PasteRequestError>(
            PasteRequestError::Expiration,
        ) <==> (encode_utf8(req.title@).len() <= config.max_title_length && 24 <= encode_utf8(
            req.content@,
        ).len() <= config.max_content_kb && (req.expire matches Some(s) && s != 0 && (s < 600 || s
            > 31536000))),
        create_paste_decision(req, config) != Err::<AcceptedPaste, PasteRequestError>(
            PasteRequestError::InvalidSignature,
        ),
        create_paste_decision(req, config) is Ok <==> {
            &&& encode_utf8(req.title@).len() <= config.max_title_length
            &&& 24 <= encode_utf8(req.content@).len() <= config.max_content_kb
            &&& (req.expire matches Some(s) ==> s == 0 || 600 <= s <= 31536000)
            &&& (req.syntax matches Some(x) ==> encode_utf8(x@).len() <= config.max_syntax_length)
        },
        create_paste_decision(req, config) is Ok ==> create_paste_decision(req, config)->Ok_0.burn
            == (req.burn == Some(true)),
        create_paste_decision(req, config) is Ok && req.expire is Some && req.expire->0 != 0
            ==> create_paste_decision(req, config)->Ok_0.expire_seconds == req.expire,
        create_paste_decision(req, config) is Ok ==> (req.expire is None || req.expire == Some(
            0i32,
        ) ==> create_paste_decision(req, config)->Ok_0.expire_seconds is None),
{
}

/// Checks the content length against the configured bounds.
pub fn content_size_ok(content: &String, config: &Config) -> (r: bool)
    ensures
        r == !content_size_refused(content@, *config),
{
    let n = byte_len(content.as_str());
    !(n > config.max_content_kb as usize || n < MIN_CONTENT_LEN)
}

/// Checks the syntax name against the configured limit.
pub fn syntax_ok(syntax: &Option<String>, config: &Config) -> (r: bool)
    ensures
        r == !syntax_refused(*syntax, *config),
{
    match syntax {
        Some(x) => byte_len(x.as_str()) <= config.max_syntax_length as usize,
        None => true,
    }
}

/// Checks a requested lifetime against `[min, max]`, 0 meaning no expiry.
pub fn expiration_ok(expire: Option<i32>, min: i32, max: i32) -> (r: bool)
    ensures
        r == !expiration_refused(expire, min as int, max as int),
{
    match expire {
        Some(s) => s == 0 || (s >= min && s <= max),
        None => true,
    }
}

/// The lifetime that a request asks for: none when absent or 0.
pub fn lifetime_of(expire: Option<i32>) -> (r: Option<i32>)
    ensures
        r == requested_lifetime(expire),
{
    match expire {
        Some(s) => if s == 0 {
            None
        } else {
            Some(s)
        },
        None => None,
    }
}

/// Decides how a request to store a paste is answered; see
/// `create_paste_decision`.
pub fn validate_create_paste(req: &CreatePasteRequest, config: &Config) -> (r: Result<
    AcceptedPaste,
    PasteRequestError,
>)
    ensures
        r == create_paste_decision(*req, *config),
        r is Ok ==> r->Ok_0.burn == (req.burn == Some(true)),
        r is Ok && req.expire is Some && req.expire->0 != 0 ==> 600 <= req.expire->0 <= 31536000
            && r->Ok_0.expire_seconds == req.expire,
        r is Ok ==> encode_utf8(req.title@).len() <= config.max_title_length && 24 <= encode_utf8(
            req.content@,
        ).len() <= config.max_content_kb,
{
    proof {
        lemma_create_paste_checks(*req, *config);
    }
    if byte_len(req.title.as_str()) > config.max_title_length as usize {
        return Err(PasteRequestError::TitleTooLong);
    }
    if !content_size_ok(&req.content, config) {
        return Err(PasteRequestError::ContentSize);
    }
    if !expiration_ok(req.expire, MIN_EXPIRE_SECONDS, MAX_EXPIRE_SECONDS) {
        return Err(PasteRequestError::Expiration);
    }
    if !syntax_ok(&req.syntax, config) {
        return Err(PasteRequestError::SyntaxTooLong);
    }
    Ok(
        AcceptedPaste {
            expire_seconds: lifetime_of(req.expire),
            burn: match req.burn {
                Some(b) => b,
                None => false,
            },
        },
    )
}

/// An instant: whole seconds since the Unix epoch and the nanoseconds past
/// them.
#[derive(Clone, Copy, Debug, PartialEq, Eq, Structural)]
pub struct Timestamp {
    pub secs: i64,
    pub nanos: u32,
}

/// Whether instant `a` comes before instant `b`.
pub open spec fn before(a: Timestamp, b: Timestamp) -> bool {
    a.secs < b.secs || (a.secs == b.secs && a.nanos < b.nanos)
}

impl Timestamp {
    /// Whether this instant comes before `other`.
    pub fn is_before(&self, other: &Timestamp) -> (r: bool)
        ensures
            r == before(*self, *other),
            r == (self.secs < other.secs || (self.secs == other.secs && self.nanos < other.nanos)),
    {
        self.secs < other.secs || (self.secs == other.secs && self.nanos < other.nanos)
    }
}

/// What reading a stored paste leads to. `by_owner` says that the paste is
/// deleted through its owner's index rather than by its id alone.
#[derive(Clone, Copy, Debug, PartialEq, Eq, Structural)]
pub enum PasteReadAction {
    /// The paste has expired: it is deleted and the reader gets
    /// `404 Not Found`.
    Expired { by_owner: bool },
    /// The paste burns after reading: it is shown once and deleted.
    Burn { by_owner: bool },
    /// The paste is shown and its view count goes up by one.
    CountView,
}

/// What reading a paste leads to, given its expiry, the present instant,
/// whether it burns after reading and whether it has an owner.
pub open spec fn read_action(
    expire: Option<Timestamp>,
    now: Timestamp,
    burn: bool,
    has_owner: bool,
) -> PasteReadAction {
    match expire {
        Some(t) if before(t, now) => PasteReadAction::Expired { by_owner: has_owner },
        _ => if burn {
            PasteReadAction::Burn { by_owner: has_owner }
        } else {
            PasteReadAction::CountView
        },
    }
}

/// Whether an expiry lies before the present instant, seconds first, then
/// nanoseconds.
pub open spec fn expiry_passed(expire: Option<Timestamp>, now: Timestamp) -> bool {
    match expire {
        Some(t) => t.secs < now.secs || (t.secs == now.secs && t.nanos < now.nanos),
        None => false,
    }
}

/// Reading a paste whose expiry lies before the present instant (seconds
/// first, then nanoseconds) deletes it; otherwise a paste that burns after
/// reading is shown and deleted, and any other paste is shown and its view
/// counted. Deletion goes through the owner exactly when the paste has one.
pub proof fn lemma_read_action(
    expire: Option<Timestamp>,
    now: Timestamp,
    burn: bool,
    has_owner: bool,
)
    ensures
        expiry_passed(expire, now) ==> read_action(expire, now, burn, has_owner) == (
        PasteReadAction::Expired { by_owner: has_owner }),
        !expiry_passed(expire, now) && burn ==> read_action(expire, now, burn, has_owner) == (
        PasteReadAction::Burn { by_owner: has_owner }),
        !expiry_passed(expire, now) && !burn ==> read_action(expire, now, burn, has_owner)
            == PasteReadAction::CountView,
{
}

/// Decides what reading a paste leads to; see `read_action`.
pub fn paste_read_action(
    expire: Option<Timestamp>,
    now: Timestamp,
    burn: bool,
    has_owner: bool,
) -> (r: PasteReadAction)
    ensures
        r == read_action(expire, now, burn, has_owner),
        expiry_passed(expire, now) ==> r == (PasteReadAction::Expired { by_owner: has_owner }),
        !expiry_passed(expire, now) && burn ==> r == (PasteReadAction::Burn { by_owner: has_owner }),
        !expiry_passed(expire, now) && !burn ==> r == PasteReadAction::CountView,
{
    proof {
        lemma_read_action(expire, now, burn, has_owner);
    }
    if let Some(t) = expire {
        if t.is_before(&now) {
            return PasteReadAction::Expired { by_owner: has_owner };
        }
    }
    if burn {
        PasteReadAction::Burn { by_owner: has_owner }
    } else {
        PasteReadAction::CountView
    }
}

} // verus!
