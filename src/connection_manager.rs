//! Delivery to leaders: per-leader retry decisions, aggregation of
//! per-leader outcomes, and the QUIC parameters of the TPU sessions.

use vstd::prelude::*;

use crate::errors::{classify_message, classify_text, error_text, TpuErrorCode};
use crate::text::{decimal, push_decimal};

verus! {

/// Number of QUIC endpoints that connections are spread over.
pub const NUM_ENDPOINTS: usize = 5;

/// Maximum send attempts per leader.
pub const MAX_SEND_ATTEMPTS: usize = 3;

/// Delay between attempts, in milliseconds.
pub const RETRY_DELAY_MS: u64 = 50;

/// Budget for sending to one leader, connect and all attempts, in milliseconds.
pub const LEADER_SEND_TIMEOUT_MS: u64 = 1000;

/// Ceiling on collecting the per-leader outcomes of one send, in milliseconds.
pub const COLLECT_TIMEOUT_MS: u64 = 800;

/// QUIC idle timeout, in milliseconds.
pub const QUIC_MAX_TIMEOUT_MS: u64 = 30000;

/// QUIC keep-alive interval, in milliseconds.
pub const QUIC_KEEP_ALIVE_MS: u64 = 4000;

/// Outcome of sending to one leader.
#[derive(Debug, Clone)]
pub struct LeaderDeliveryResult {
    /// Validator identity public key.
    pub identity: String,
    /// TPU socket address.
    pub address: String,
    /// Whether the send succeeded.
    pub success: bool,
    /// Latency for this leader in milliseconds.
    pub latency_ms: u64,
    /// Error message if failed.
    pub error: Option<String>,
    /// Error code for programmatic handling.
    pub error_code: Option<TpuErrorCode>,
    /// Number of attempts made for this leader.
    pub attempts: usize,
}

/// Outcome of one send to a set of leaders.
#[derive(Debug, Clone)]
pub struct DeliveryResult {
    /// Whether at least one leader received the transaction.
    pub delivered: bool,
    /// Total latency in milliseconds.
    pub latency_ms: u64,
    /// Number of leaders that received the transaction.
    pub leader_count: usize,
    /// Per-leader outcomes, in the order they were reported.
    pub leaders: Vec<LeaderDeliveryResult>,
    /// Retries spent across all leaders.
    pub total_retries: usize,
}

/// Why a send to a set of leaders failed as a whole.
#[derive(Debug, Clone, Copy, PartialEq, Eq, Structural)]
pub enum DeliveryError {
    /// There was no leader to send to.
    NoLeaders,
    /// No leader received the transaction.
    NoneDelivered { attempted: usize, total_retries: usize },
}

/// Retries spent on one leader: attempts beyond the first.
pub open spec fn retries_of(r: LeaderDeliveryResult) -> nat {
    if r.attempts > 1 {
        (r.attempts - 1) as nat
    } else {
        0
    }
}

/// Retries spent across a sequence of outcomes.
pub open spec fn retries_sum(rs: Seq<LeaderDeliveryResult>) -> nat
    decreases rs.len(),
{
    if rs.len() == 0 {
        0
    } else {
        retries_sum(rs.drop_last()) + retries_of(rs.last())
    }
}

/// Number of successful outcomes.
pub open spec fn success_count(rs: Seq<LeaderDeliveryResult>) -> nat
    decreases rs.len(),
{
    if rs.len() == 0 {
        0
    } else {
        success_count(rs.drop_last()) + if rs.last().success { 1nat } else { 0nat }
    }
}

/// `n`, or the largest `usize` if it does not fit.
pub open spec fn capped(n: nat) -> usize {
    if n > usize::MAX {
        usize::MAX
    } else {
        n as usize
    }
}

impl DeliveryError {
    /// The message describing the failure.
    pub open spec fn message_text(self) -> Seq<char> {
        match self {
            DeliveryError::NoLeaders => "No leaders available"@,
            DeliveryError::NoneDelivered { attempted, total_retries } => "Failed to send transaction to any leader ("@
                + decimal(attempted as nat) + " attempted, "@ + decimal(total_retries as nat)
                + " total retries)"@,
        }
    }

    /// Describes the failure.
    pub fn message(&self) -> (r: String)
        ensures
            r@ == self.message_text(),
    {
        match self {
            DeliveryError::NoLeaders => String::from_str("No leaders available"),
            DeliveryError::NoneDelivered { attempted, total_retries } => {
                let mut s = String::from_str("Failed to send transaction to any leader (");
                push_decimal(&mut s, *attempted as u64);
                s.append(" attempted, ");
                push_decimal(&mut s, *total_retries as u64);
                s.append(" total retries)");
                s
            },
        }
    }
}

/// Aggregates the per-leader outcomes of one send to `attempted` leaders.
/// Fails with `NoLeaders` when there was no leader, and with `NoneDelivered`
/// when no leader received the transaction; the retry count is the sum over
/// leaders of the attempts beyond the first.
pub fn aggregate_delivery(results: Vec<LeaderDeliveryResult>, attempted: usize, latency_ms: u64) -> (r: Result<DeliveryResult, DeliveryError>)
    ensures
        attempted == 0 ==> r == Err::<DeliveryResult, DeliveryError>(DeliveryError::NoLeaders),
        attempted > 0 && success_count(results@) == 0 ==> r == Err::<DeliveryResult, DeliveryError>(
            DeliveryError::NoneDelivered { attempted, total_retries: capped(retries_sum(results@)) },
        ),
        attempted > 0 && success_count(results@) > 0 ==> (r matches Ok(d) && {
            &&& d.delivered
            &&& d.latency_ms == latency_ms
            &&& d.leader_count == success_count(results@)
            &&& d.leaders@ == results@
            &&& d.total_retries == capped(retries_sum(results@))
        }),
{
    if attempted == 0 {
        return Err(DeliveryError::NoLeaders);
    }
    let mut successes: usize = 0;
    let mut total_retries: usize = 0;
    let n = results.len();
    let mut i: usize = 0;
    while i < n
        invariant
            n == results@.len(),
            i <= n,
            successes == success_count(results@.take(i as int)),
            successes <= i,
            total_retries == capped(retries_sum(results@.take(i as int))),
        decreases n - i,
    {
        let result = &results[i];
        assert(results@.take(i + 1).drop_last() =~= results@.take(i as int));
        if result.attempts > 1 {
            total_retries = total_retries.saturating_add(result.attempts - 1);
        }
        if result.success {
            successes = successes + 1;
        }
        i = i + 1;
    }
    assert(results@.take(n as int) =~= results@);
    if successes == 0 {
        return Err(DeliveryError::NoneDelivered { attempted, total_retries });
    }
    Ok(DeliveryResult { delivered: true, latency_ms, leader_count: successes, leaders: results, total_retries })
}

/// The retry count of a send is the number of attempts beyond the first,
/// summed over the leaders (when that sum fits a `usize`).
pub proof fn lemma_retry_count(results: Seq<LeaderDeliveryResult>)
    requires
        forall|k: int| 0 <= k < results.len() ==> (#[trigger] results[k]).attempts >= 1,
        retries_sum(results) <= usize::MAX,
    ensures
        capped(retries_sum(results)) as int == attempts_beyond_first(results),
    decreases results.len(),
{
    if results.len() > 0 {
        assert forall|k: int| 0 <= k < results.drop_last().len() implies (
        #[trigger] results.drop_last()[k]).attempts >= 1 by {
            assert(results.drop_last()[k] == results[k]);
        }
        lemma_retry_count(results.drop_last());
        assert(results.last() == results[results.len() - 1]);
    }
}

/// The sum over outcomes of `attempts - 1`.
pub open spec fn attempts_beyond_first(rs: Seq<LeaderDeliveryResult>) -> int
    decreases rs.len(),
{
    if rs.len() == 0 {
        0
    } else {
        attempts_beyond_first(rs.drop_last()) + rs.last().attempts - 1
    }
}

/// The message of a send that ran out of time.
pub open spec fn timeout_text() -> Seq<char> {
    "Timeout after 1s"@
}

/// The retry state of a send to one leader: attempts are strictly serial,
/// a retryable failure leads to another attempt while attempts remain, and
/// the outcome reports the last error and its code.
#[derive(Debug)]
pub struct LeaderSendState {
    identity: String,
    address: String,
    attempts: usize,
    last_error: Option<String>,
    error_code: Option<TpuErrorCode>,
}

impl LeaderSendState {
    pub closed spec fn ident(&self) -> Seq<char> {
        self.identity@
    }

    pub closed spec fn addr(&self) -> Seq<char> {
        self.address@
    }

    /// Attempts made so far.
    pub closed spec fn attempts_made(&self) -> nat {
        self.attempts as nat
    }

    /// Message of the last failed attempt.
    pub closed spec fn last_error_text(&self) -> Option<Seq<char>> {
        match self.last_error {
            Some(e) => Some(e@),
            None => None,
        }
    }

    /// Code of the last failed attempt.
    pub closed spec fn last_code(&self) -> Option<TpuErrorCode> {
        self.error_code
    }

    /// The state is consistent: attempts within the limit, and the code is
    /// the classification of the recorded message.
    pub open spec fn wf(&self) -> bool {
        &&& self.attempts_made() <= MAX_SEND_ATTEMPTS
        &&& match self.last_error_text() {
            Some(t) => self.last_code() == Some(classify_text(t)),
            None => self.last_code() is None,
        }
    }

    /// Starts the sends to one leader: no attempt made yet.
    pub fn new(identity: String, address: String) -> (r: Self)
        ensures
            r.ident() == identity@,
            r.addr() == address@,
            r.attempts_made() == 0,
            r.last_error_text() is None,
            r.wf(),
    {
        LeaderSendState { identity, address, attempts: 0, last_error: None, error_code: None }
    }

    /// Whether another attempt may be made.
    pub fn can_attempt(&self) -> (r: bool)
        ensures
            r == (self.attempts_made() < MAX_SEND_ATTEMPTS),
    {
        self.attempts < MAX_SEND_ATTEMPTS
    }

    /// Records a failed attempt and decides: returns true to retry (after
    /// the retry delay), false to give up. Only retryable failures are
    /// retried, and only while attempts remain.
    pub fn record_failure(&mut self, error: &anyhow::Error) -> (retry: bool)
        requires
            old(self).wf(),
            old(self).attempts_made() < MAX_SEND_ATTEMPTS,
        ensures
            final(self).wf(),
            final(self).ident() == old(self).ident(),
            final(self).addr() == old(self).addr(),
            final(self).attempts_made() == old(self).attempts_made() + 1,
            final(self).last_error_text() is Some,
            retry == (final(self).attempts_made() < MAX_SEND_ATTEMPTS
                && final(self).last_code().unwrap().retryable()),
    {
        let text = error_text(error);
        self.record_failure_message(text)
    }

    /// Records a failed attempt with its error message; see `record_failure`.
    pub fn record_failure_message(&mut self, message: String) -> (retry: bool)
        requires
            old(self).wf(),
            old(self).attempts_made() < MAX_SEND_ATTEMPTS,
        ensures
            final(self).wf(),
            final(self).ident() == old(self).ident(),
            final(self).addr() == old(self).addr(),
            final(self).attempts_made() == old(self).attempts_made() + 1,
            final(self).last_error_text() == Some(message@),
            final(self).last_code() == Some(classify_text(message@)),
            retry == (final(self).attempts_made() < MAX_SEND_ATTEMPTS && classify_text(
                message@,
            ).retryable()),
    {
        let code = classify_message(message.as_str());
        self.attempts = self.attempts + 1;
        self.last_error = Some(message);
        self.error_code = Some(code);
        self.attempts < MAX_SEND_ATTEMPTS && code.is_retryable()
    }

    /// The outcome of an attempt that succeeded.
    pub fn succeeded(self, latency_ms: u64) -> (r: LeaderDeliveryResult)
        requires
            self.attempts_made() < MAX_SEND_ATTEMPTS,
        ensures
            r.identity@ == self.ident(),
            r.address@ == self.addr(),
            r.success,
            r.latency_ms == latency_ms,
            r.error is None,
            r.error_code is None,
            r.attempts == self.attempts_made() + 1,
    {
        LeaderDeliveryResult {
            identity: self.identity,
            address: self.address,
            success: true,
            latency_ms,
            error: None,
            error_code: None,
            attempts: self.attempts + 1,
        }
    }

    /// The outcome after giving up: the last error and its code.
    pub fn failed(self, latency_ms: u64) -> (r: LeaderDeliveryResult)
        ensures
            r.identity@ == self.ident(),
            r.address@ == self.addr(),
            !r.success,
            r.latency_ms == latency_ms,
            match r.error {
                Some(e) => self.last_error_text() == Some(e@),
                None => self.last_error_text() is None,
            },
            r.error_code == self.last_code(),
            r.attempts == self.attempts_made(),
    {
        LeaderDeliveryResult {
            identity: self.identity,
            address: self.address,
            success: false,
            latency_ms,
            error: self.last_error,
            error_code: self.error_code,
            attempts: self.attempts,
        }
    }

    /// The outcome when the per-leader budget ran out: a timeout with the
    /// full attempt count.
    pub fn timed_out(self) -> (r: LeaderDeliveryResult)
        ensures
            r.identity@ == self.ident(),
            r.address@ == self.addr(),
            !r.success,
            r.latency_ms == LEADER_SEND_TIMEOUT_MS,
            r.error matches Some(e) && e@ == timeout_text(),
            r.error_code == Some(TpuErrorCode::Timeout),
            r.attempts == MAX_SEND_ATTEMPTS,
    {
        LeaderDeliveryResult {
            identity: self.identity,
            address: self.address,
            success: false,
            latency_ms: LEADER_SEND_TIMEOUT_MS,
            error: Some(String::from_str("Timeout after 1s")),
            error_code: Some(TpuErrorCode::Timeout),
            attempts: MAX_SEND_ATTEMPTS,
        }
    }
}

/// The QUIC server name validators expect for a peer: `{ip}.{port}.sol`.
pub open spec fn server_name_of(ip: Seq<char>, port: u16) -> Seq<char> {
    ip + "."@ + decimal(port as nat) + ".sol"@
}

/// Builds the QUIC server name (SNI) for a peer address given as its IP text
/// and port.
pub fn quic_server_name(ip: &str, port: u16) -> (r: String)
    ensures
        r@ == server_name_of(ip@, port),
{
    let mut s = String::from_str(ip);
    s.append(".");
    push_decimal(&mut s, port as u64);
    s.append(".sol");
    s
}

} // verus!
