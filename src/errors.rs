//! Error codes for delivery failures, and their classification from error text.

use vstd::prelude::*;

use crate::text::{chars_of, contains_str, occurs_in};

verus! {

/// Error codes handed to callers for programmatic handling and retry decisions.
#[derive(Debug, Clone, Copy, PartialEq, Eq, Structural)]
pub enum TpuErrorCode {
    /// Failed to establish a QUIC connection to the validator.
    ConnectionFailed,
    /// The validator closed or reset the stream.
    StreamClosed,
    /// The validator signalled too many requests or a full queue.
    RateLimited,
    /// No leaders are available in the schedule.
    NoLeaders,
    /// The connection or send operation timed out.
    Timeout,
    /// Any other failure to reach the validator.
    ValidatorUnreachable,
    /// The validator rejected 0-RTT early data.
    ZeroRttRejected,
}

impl TpuErrorCode {
    /// The stable string code of this error kind.
    pub open spec fn code_text(self) -> Seq<char> {
        match self {
            TpuErrorCode::ConnectionFailed => "CONNECTION_FAILED"@,
            TpuErrorCode::StreamClosed => "STREAM_CLOSED"@,
            TpuErrorCode::RateLimited => "RATE_LIMITED"@,
            TpuErrorCode::NoLeaders => "NO_LEADERS"@,
            TpuErrorCode::Timeout => "TIMEOUT"@,
            TpuErrorCode::ValidatorUnreachable => "VALIDATOR_UNREACHABLE"@,
            TpuErrorCode::ZeroRttRejected => "ZERO_RTT_REJECTED"@,
        }
    }

    /// Only connection, stream, rate-limit and timeout failures are worth retrying.
    pub open spec fn retryable(self) -> bool {
        match self {
            TpuErrorCode::ConnectionFailed
            | TpuErrorCode::StreamClosed
            | TpuErrorCode::RateLimited
            | TpuErrorCode::Timeout => true,
            _ => false,
        }
    }

    /// Returns the stable string code.
    pub fn as_str(&self) -> (r: &'static str)
        ensures
            r@ == self.code_text(),
    {
        match self {
            TpuErrorCode::ConnectionFailed => "CONNECTION_FAILED",
            TpuErrorCode::StreamClosed => "STREAM_CLOSED",
            TpuErrorCode::RateLimited => "RATE_LIMITED",
            TpuErrorCode::NoLeaders => "NO_LEADERS",
            TpuErrorCode::Timeout => "TIMEOUT",
            TpuErrorCode::ValidatorUnreachable => "VALIDATOR_UNREACHABLE",
            TpuErrorCode::ZeroRttRejected => "ZERO_RTT_REJECTED",
        }
    }

    /// Returns the stable string code as an owned string.
    pub fn to_string(&self) -> (r: String)
        ensures
            r@ == self.code_text(),
    {
        String::from_str(self.as_str())
    }

    /// Returns whether this error is worth retrying.
    pub fn is_retryable(&self) -> (r: bool)
        ensures
            r == self.retryable(),
    {
        match self {
            TpuErrorCode::ConnectionFailed
            | TpuErrorCode::StreamClosed
            | TpuErrorCode::RateLimited
            | TpuErrorCode::Timeout => true,
            _ => false,
        }
    }
}

/// Whether lower-case message `m` carries the marker words of error kind `code`.
/// The catch-all kind is signalled by every message.
pub open spec fn signals(code: TpuErrorCode, m: Seq<char>) -> bool {
    match code {
        TpuErrorCode::ConnectionFailed => occurs_in("connection refused"@, m) || occurs_in(
            "connection reset"@,
            m,
        ),
        TpuErrorCode::StreamClosed => occurs_in("stream"@, m) && (occurs_in("closed"@, m)
            || occurs_in("reset"@, m)),
        TpuErrorCode::RateLimited => occurs_in("rate"@, m) || occurs_in("limit"@, m) || occurs_in(
            "too many"@,
            m,
        ) || occurs_in("queue full"@, m) || occurs_in("channel full"@, m),
        TpuErrorCode::Timeout => occurs_in("timeout"@, m) || occurs_in("timed out"@, m),
        TpuErrorCode::ZeroRttRejected => occurs_in("0-rtt"@, m) || occurs_in("early data"@, m),
        TpuErrorCode::NoLeaders => occurs_in("no leader"@, m) || occurs_in("no schedule"@, m),
        TpuErrorCode::ValidatorUnreachable => true,
    }
}

/// The order in which the kinds are tested: a message signalling several kinds
/// gets the first of them.
pub open spec fn precedence(code: TpuErrorCode) -> nat {
    match code {
        TpuErrorCode::ConnectionFailed => 0,
        TpuErrorCode::StreamClosed => 1,
        TpuErrorCode::RateLimited => 2,
        TpuErrorCode::Timeout => 3,
        TpuErrorCode::ZeroRttRejected => 4,
        TpuErrorCode::NoLeaders => 5,
        TpuErrorCode::ValidatorUnreachable => 6,
    }
}

/// `m` signals `code` and no kind tested before it.
pub open spec fn falls_under(m: Seq<char>, code: TpuErrorCode) -> bool {
    &&& signals(code, m)
    &&& forall|d: TpuErrorCode| #[trigger] precedence(d) < precedence(code) ==> !signals(d, m)
}

/// The error code of an already lower-cased message.
pub open spec fn classify_lowered(m: Seq<char>) -> TpuErrorCode {
    if signals(TpuErrorCode::ConnectionFailed, m) {
        TpuErrorCode::ConnectionFailed
    } else if signals(TpuErrorCode::StreamClosed, m) {
        TpuErrorCode::StreamClosed
    } else if signals(TpuErrorCode::RateLimited, m) {
        TpuErrorCode::RateLimited
    } else if signals(TpuErrorCode::Timeout, m) {
        TpuErrorCode::Timeout
    } else if signals(TpuErrorCode::ZeroRttRejected, m) {
        TpuErrorCode::ZeroRttRejected
    } else if signals(TpuErrorCode::NoLeaders, m) {
        TpuErrorCode::NoLeaders
    } else {
        TpuErrorCode::ValidatorUnreachable
    }
}

/// The lower-case form of a string, as `str::to_lowercase` computes it.
pub uninterp spec fn lower_of(s: Seq<char>) -> Seq<char>;

/// The error code of an arbitrary message: it is lower-cased, then classified.
pub open spec fn classify_text(msg: Seq<char>) -> TpuErrorCode {
    classify_lowered(lower_of(msg))
}

/// The error type of `anyhow`, carried through opaquely.
#[verifier::external_type_specification]
#[verifier::external_body]
pub struct ExAnyhowError(anyhow::Error);

/// Relies on `str::to_lowercase`: Unicode lower-casing, a function of the characters alone.
#[verifier::external_body]
fn lowercase(s: &str) -> (r: String)
    ensures
        r@ == lower_of(s@),
{
    s.to_lowercase()
}

/// Relies on the `Display` impl of `anyhow::Error` (through `to_string`): the
/// message of the outermost error. Nothing is stated of it.
#[verifier::external_body]
pub(crate) fn error_text(error: &anyhow::Error) -> String {
    error.to_string()
}

/// Classifies a message that is already lower-case.
pub fn classify_lowered_message(m: &str) -> (r: TpuErrorCode)
    ensures
        r == classify_lowered(m@),
{
    let c = chars_of(m);
    if contains_str(&c, "connection refused") || contains_str(&c, "connection reset") {
        TpuErrorCode::ConnectionFailed
    } else if contains_str(&c, "stream") && (contains_str(&c, "closed") || contains_str(
        &c,
        "reset",
    )) {
        TpuErrorCode::StreamClosed
    } else if contains_str(&c, "rate") || contains_str(&c, "limit") || contains_str(&c, "too many")
        || contains_str(&c, "queue full") || contains_str(&c, "channel full") {
        TpuErrorCode::RateLimited
    } else if contains_str(&c, "timeout") || contains_str(&c, "timed out") {
        TpuErrorCode::Timeout
    } else if contains_str(&c, "0-rtt") || contains_str(&c, "early data") {
        TpuErrorCode::ZeroRttRejected
    } else if contains_str(&c, "no leader") || contains_str(&c, "no schedule") {
        TpuErrorCode::NoLeaders
    } else {
        TpuErrorCode::ValidatorUnreachable
    }
}

/// Classifies an error message by case-insensitive substring match.
pub fn classify_message(msg: &str) -> (r: TpuErrorCode)
    ensures
        r == classify_text(msg@),
{
    let lower = lowercase(msg);
    classify_lowered_message(lower.as_str())
}

/// Classifies an error into a code, based on its message.
pub fn classify_error(error: &anyhow::Error) -> (r: TpuErrorCode)
    ensures
        exists|msg: Seq<char>| r == classify_text(msg),
{
    let text = error_text(error);
    let r = classify_message(text.as_str());
    assert(r == classify_text(text@));
    r
}

/// Whether an error is worth retrying, based on its message.
pub fn is_retryable_error(error: &anyhow::Error) -> (r: bool)
    ensures
        exists|msg: Seq<char>| r == classify_text(msg).retryable(),
{
    let text = error_text(error);
    let code = classify_message(text.as_str());
    let r = code.is_retryable();
    assert(r == classify_text(text@).retryable());
    r
}

/// Every message falls under exactly one error code, the one that
/// classification gives it, and equal messages get the same code.
pub proof fn lemma_classification_is_total_and_stable(msg: Seq<char>, other: Seq<char>, code: TpuErrorCode)
    ensures
        falls_under(lower_of(msg), code) <==> code == classify_text(msg),
        msg == other ==> classify_text(msg) == classify_text(other),
{
    let m = lower_of(msg);
    let c = classify_text(msg);
    assert forall|d: TpuErrorCode| #[trigger] precedence(d) < precedence(c) implies !signals(d, m) by {
        match d {
            TpuErrorCode::ConnectionFailed => {},
            TpuErrorCode::StreamClosed => {},
            TpuErrorCode::RateLimited => {},
            TpuErrorCode::Timeout => {},
            TpuErrorCode::ZeroRttRejected => {},
            TpuErrorCode::NoLeaders => {},
            TpuErrorCode::ValidatorUnreachable => {},
        }
    }
    assert(falls_under(m, c));
    if falls_under(m, code) && code != c {
        if precedence(code) < precedence(c) {
            assert(!signals(code, m));
        } else {
            assert(precedence(c) < precedence(code)) by {
                match code {
                    TpuErrorCode::ConnectionFailed => {},
                    TpuErrorCode::StreamClosed => {},
                    TpuErrorCode::RateLimited => {},
                    TpuErrorCode::Timeout => {},
                    TpuErrorCode::ZeroRttRejected => {},
                    TpuErrorCode::NoLeaders => {},
                    TpuErrorCode::ValidatorUnreachable => {},
                }
                match c {
                    TpuErrorCode::ConnectionFailed => {},
                    TpuErrorCode::StreamClosed => {},
                    TpuErrorCode::RateLimited => {},
                    TpuErrorCode::Timeout => {},
                    TpuErrorCode::ZeroRttRejected => {},
                    TpuErrorCode::NoLeaders => {},
                    TpuErrorCode::ValidatorUnreachable => {},
                }
            }
            assert(!signals(c, m));
        }
    }
}

} // verus!
