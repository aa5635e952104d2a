//! Decisions of the current paste handlers, which sign pastes and take the
//! allowed lifetimes from the caller.
use crate::api::{
    byte_len, content_size_ok, content_size_refused, expiration_ok, expiration_refused,
    lifetime_of, requested_lifetime, syntax_ok, syntax_refused, text_len, PasteRequestError,
};
use crate::config::Config;
use crate::models::paste_vm::CreatePasteRequest;
use vstd::prelude::*;
use vstd::utf8::encode_utf8;

verus! {

/// Length in bytes of a paste's signature.
pub const SIGNATURE_LEN: usize = 24;

/// What an accepted request asks for: a lifetime in seconds, if any, the
/// lifetime recorded with the paste (0 for none), and whether the paste is
/// deleted once read.
#[derive(Clone, Copy, Debug, PartialEq, Eq, Structural)]
pub struct ValidatedPaste {
    pub expire_seconds: Option<i32>,
    pub duration: i32,
    pub burn: bool,
}

/// How a request to store a signed paste is answered, checking in turn the
/// title, the content, the lifetime against `[min_paste_duration,
/// max_paste_duration]`, the signature and the syntax.
pub open spec fn create_signed_paste_decision(
    req: CreatePasteRequest,
    config: Config,
    min_paste_duration: int,
    max_paste_duration: int,
) -> Result<ValidatedPaste, PasteRequestError> {
    if text_len(req.title@) > config.max_title_length {
        Err(PasteRequestError::TitleTooLong)
    } else if content_size_refused(req.content@, config) {
        Err(PasteRequestError::ContentSize)
    } else if expiration_refused(req.expire, min_paste_duration, max_paste_duration) {
        Err(PasteRequestError::Expiration)
    } else if text_len(req.signature@) != SIGNATURE_LEN {
        Err(PasteRequestError::InvalidSignature)
    } else if syntax_refused(req.syntax, config) {
        Err(PasteRequestError::SyntaxTooLong)
    } else {
        Ok(
            ValidatedPaste {
                expire_seconds: requested_lifetime(req.expire),
                duration: match requested_lifetime(req.expire) {
                    Some(s) => s,
                    None => 0,
                },
                burn: match req.burn {
                    Some(b) => b,
                    None => false,
                },
            },
        )
    }
}

/// The checks of a signed paste request, stated over the request's own
/// fields: the lifetime is refused exactly when it is neither absent, 0,
/// nor within `[min_paste_duration, max_paste_duration]` and the title and
/// content passed; the signature is refused exactly when it is not 24
/// bytes and the earlier checks passed; a request that passes every check
/// is accepted; an accepted request asks for the lifetime it gave (none and
/// duration 0 for an absent or 0 lifetime) and burns after reading exactly
/// when it said `Some(true)`.
pub proof fn lemma_signed_paste_checks(
    req: CreatePasteRequest,
    config: Config,
    min_paste_duration: int,
    max_paste_duration: int,
)
    ensures
        ({
            let d = create_signed_paste_decision(req, config, min_paste_duration, max_paste_duration);
            &&& (encode_utf8(req.title@).len() > config.max_title_length) <==> d == Err::<
                ValidatedPaste,
                PasteRequestError,
            >(PasteRequestError::TitleTooLong)
            &&& d == Err::<ValidatedPaste, PasteRequestError>(PasteRequestError::Expiration) <==> (
            encode_utf8(req.title@).len() <= config.max_title_length && 24 <= encode_utf8(
                req.content@,
            ).len() <= config.max_content_kb && (req.expire matches Some(s) && s != 0 && (s
                < min_paste_duration || s > max_paste_duration)))
            &&& d == Err::<ValidatedPaste, PasteRequestError>(PasteRequestError::InvalidSignature)
                <==> (encode_utf8(req.title@).len() <= config.max_title_length && 24
                <= encode_utf8(req.content@).len() <= config.max_content_kb && (req.expire matches Some(
                s,
            ) ==> s == 0 || min_paste_duration <= s <= max_paste_duration) && encode_utf8(
                req.signature@,
            ).len() != 24)
            &&& d is Ok <==> {
                &&& encode_utf8(req.title@).len() <= config.max_title_length
                &&& 24 <= encode_utf8(req.content@).len() <= config.max_content_kb
                &&& (req.expire matches Some(s) ==> s == 0 || min_paste_duration <= s
                    <= max_paste_duration)
                &&& encode_utf8(req.signature@).len() == 24
                &&& (req.syntax matches Some(x) ==> encode_utf8(x@).len()
                    <= config.max_syntax_length)
            }
            &&& d is Ok ==> d->Ok_0.burn == (req.burn == Some(true))
            &&& d is Ok && req.expire is Some && req.expire->0 != 0 ==> d->Ok_0.expire_seconds
                == req.expire && d->Ok_0.duration == req.expire->0
            &&& d is Ok && (req.expire is None || req.expire == Some(0i32)) ==> d->Ok_0.expire_seconds is None
                && d->Ok_0.duration == 0
        }),
{
}

/// Decides how a request to store a signed paste is answered; see
/// `create_signed_paste_decision`.
pub fn validate_create_paste(
    req: &CreatePasteRequest,
    config: &Config,
    min_paste_duration: i32,
    max_paste_duration: i32,
) -> (r: Result<ValidatedPaste, PasteRequestError>)
    ensures
        r == create_signed_paste_decision(
            *req,
            *config,
            min_paste_duration as int,
            max_paste_duration as int,
        ),
        r is Ok && req.expire is Some && req.expire->0 != 0 ==> min_paste_duration
            <= req.expire->0 <= max_paste_duration && r->Ok_0.expire_seconds == req.expire,
        r is Ok ==> r->Ok_0.burn == (req.burn == Some(true)),
        r is Ok ==> encode_utf8(req.signature@).len() == 24,
{
    proof {
        lemma_signed_paste_checks(*req, *config, min_paste_duration as int, max_paste_duration as int);
    }
    if byte_len(req.title.as_str()) > config.max_title_length as usize {
        return Err(PasteRequestError::TitleTooLong);
    }
    if !content_size_ok(&req.content, config) {
        return Err(PasteRequestError::ContentSize);
    }
    if !expiration_ok(req.expire, min_paste_duration, max_paste_duration) {
        return Err(PasteRequestError::Expiration);
    }
    if byte_len(req.signature.as_str()) != SIGNATURE_LEN {
        return Err(PasteRequestError::InvalidSignature);
    }
    if !syntax_ok(&req.syntax, config) {
        return Err(PasteRequestError::SyntaxTooLong);
    }
    let expire_seconds = lifetime_of(req.expire);
    let duration = match expire_seconds {
        Some(s) => s,
        None => 0,
    };
    Ok(
        ValidatedPaste {
            expire_seconds,
            duration,
            burn: match req.burn {
                Some(b) => b,
                None => false,
            },
        },
    )
}

} // verus!
