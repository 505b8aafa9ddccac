//! The client-facing records and decisions: signature extraction, the
//! confirmation test, the resubmit-until-confirmed loop, and the caller-visible
//! send results.

use vstd::prelude::*;

use crate::connection_manager::{DeliveryResult, LeaderDeliveryResult};
use crate::errors::TpuErrorCode;
use crate::text::{decimal, push_decimal};
use crate::Slot;

verus! {

broadcast use vstd::std_specs::vec::group_vec_axioms;

/// Duration of a slot, and of the pause between resubmission rounds, in milliseconds.
pub const SLOT_DURATION_MS: u64 = 400;

/// Confirmation deadline when the caller gives none, in milliseconds.
pub const DEFAULT_CONFIRM_TIMEOUT_MS: u64 = 30000;

/// Default number of distinct leaders per send.
pub const DEFAULT_FANOUT: u32 = 4;

/// Length of a transaction signature in bytes.
pub const SIGNATURE_LEN: usize = 64;

/// Why no signature could be read from a transaction.
#[derive(Debug, Clone, Copy, PartialEq, Eq, Structural)]
pub enum SignatureError {
    /// The buffer is empty.
    Empty,
    /// The signature count is zero.
    NoSignatures,
    /// The buffer ends before the first signature does.
    TooShort,
}

impl SignatureError {
    pub open spec fn message_text(self) -> Seq<char> {
        match self {
            SignatureError::Empty => "Empty transaction data"@,
            SignatureError::NoSignatures => "Transaction has no signatures"@,
            SignatureError::TooShort => "Transaction too short to contain signature"@,
        }
    }

    /// Describes the failure.
    pub fn message(&self) -> (r: String)
        ensures
            r@ == self.message_text(),
    {
        match self {
            SignatureError::Empty => String::from_str("Empty transaction data"),
            SignatureError::NoSignatures => String::from_str("Transaction has no signatures"),
            SignatureError::TooShort => String::from_str("Transaction too short to contain signature"),
        }
    }
}

/// Extracts the first signature of a serialized transaction: byte 0 holds
/// the signature count (read as a single byte), bytes 1 to 64 the first
/// signature.
pub fn extract_signature(tx_data: &[u8]) -> (r: Result<Vec<u8>, SignatureError>)
    ensures
        tx_data@.len() == 0 ==> r == Err::<Vec<u8>, SignatureError>(SignatureError::Empty),
        tx_data@.len() > 0 && tx_data@[0] == 0 ==> r == Err::<Vec<u8>, SignatureError>(
            SignatureError::NoSignatures,
        ),
        tx_data@.len() > 0 && tx_data@[0] != 0 && tx_data@.len() < 1 + SIGNATURE_LEN ==> r
            == Err::<Vec<u8>, SignatureError>(SignatureError::TooShort),
        tx_data@.len() >= 1 + SIGNATURE_LEN && tx_data@[0] != 0 ==> (r matches Ok(sig) && sig@
            == tx_data@.subrange(1, 1 + SIGNATURE_LEN)),
{
    if tx_data.len() == 0 {
        return Err(SignatureError::Empty);
    }
    if tx_data[0] == 0 {
        return Err(SignatureError::NoSignatures);
    }
    if tx_data.len() < 1 + SIGNATURE_LEN {
        return Err(SignatureError::TooShort);
    }
    let mut sig: Vec<u8> = Vec::with_capacity(SIGNATURE_LEN);
    let mut k: usize = 0;
    while k < SIGNATURE_LEN
        invariant
            k <= SIGNATURE_LEN,
            tx_data@.len() >= 1 + SIGNATURE_LEN,
            sig@ == tx_data@.subrange(1, 1 + k),
        decreases SIGNATURE_LEN - k,
    {
        sig.push(tx_data[1 + k]);
        assert(sig@ =~= tx_data@.subrange(1, 1 + k + 1));
        k = k + 1;
    }
    Ok(sig)
}

/// Commitment level a transaction has reached.
#[derive(Debug, Clone, Copy, PartialEq, Eq, Structural)]
pub enum ConfirmationStatus {
    Processed,
    Confirmed,
    Finalized,
}

/// The status of a signature as reported by a signature-status query.
#[derive(Debug, Clone, Copy, PartialEq, Eq, Structural)]
pub struct SignatureStatus {
    /// Commitment level, if reported.
    pub confirmation_status: Option<ConfirmationStatus>,
    /// Number of confirmations, if reported.
    pub confirmations: Option<usize>,
    /// Whether the transaction failed.
    pub has_error: bool,
}

/// Whether a status counts as confirmed: a reported commitment level must
/// be `Confirmed` or `Finalized`; without one, a confirmation count or the
/// absence of an error is taken as confirmation. No status is not confirmed.
pub open spec fn confirmed_status(status: Option<SignatureStatus>) -> bool {
    match status {
        None => false,
        Some(s) => match s.confirmation_status {
            Some(c) => c == ConfirmationStatus::Confirmed || c == ConfirmationStatus::Finalized,
            None => s.confirmations is Some || !s.has_error,
        },
    }
}

/// Decides whether a signature status counts as confirmed.
pub fn is_confirmed(status: &Option<SignatureStatus>) -> (r: bool)
    ensures
        r == confirmed_status(*status),
{
    match status {
        None => false,
        Some(s) => match s.confirmation_status {
            Some(ConfirmationStatus::Confirmed) | Some(ConfirmationStatus::Finalized) => true,
            Some(ConfirmationStatus::Processed) => false,
            None => s.confirmations.is_some() || !s.has_error,
        },
    }
}

/// Result of resubmitting until confirmed.
#[derive(Debug, Clone)]
pub struct SendUntilConfirmedResult {
    /// Whether the transaction was confirmed on-chain.
    pub confirmed: bool,
    /// Transaction signature (base58).
    pub signature: String,
    /// Number of send rounds attempted.
    pub rounds: u32,
    /// Total number of leader sends across all rounds.
    pub total_leaders_sent: u32,
    /// Total latency in milliseconds.
    pub latency_ms: u32,
    /// Error message if failed.
    pub error: Option<String>,
}

/// `n`, or the largest `u32` if it does not fit.
pub open spec fn clamp_u32(n: int) -> u32 {
    if n > u32::MAX {
        u32::MAX
    } else {
        n as u32
    }
}

fn to_u32(n: u64) -> (r: u32)
    ensures
        r == clamp_u32(n as int),
{
    if n > u32::MAX as u64 {
        u32::MAX
    } else {
        n as u32
    }
}

/// The message of a loop that ran out of time.
pub open spec fn not_confirmed_text(timeout_ms: u64, rounds: u32, sent: u32) -> Seq<char> {
    "Transaction not confirmed within "@ + decimal(timeout_ms as nat) + "ms ("@ + decimal(
        rounds as nat,
    ) + " rounds, "@ + decimal(sent as nat) + " leaders sent)"@
}

/// The decisions of resubmitting a transaction until it is confirmed or a
/// deadline passes. Each round: note the current slot (two further rounds
/// on an unchanged slot ask for a slot refresh), send, count the leaders
/// reached, poll the status, and pause until the next slot, never past the
/// deadline. After the deadline one last status poll decides the outcome.
#[derive(Debug)]
pub struct ConfirmLoop {
    signature: String,
    timeout_ms: u64,
    rounds: u32,
    total_leaders_sent: u32,
    last_slot: Slot,
    stale_rounds: u32,
}

impl ConfirmLoop {
    pub closed spec fn sig(&self) -> Seq<char> {
        self.signature@
    }

    pub closed spec fn deadline(&self) -> u64 {
        self.timeout_ms
    }

    /// Rounds started so far.
    pub closed spec fn round_count(&self) -> u32 {
        self.rounds
    }

    /// Leaders reached so far, over all rounds.
    pub closed spec fn sent_count(&self) -> u32 {
        self.total_leaders_sent
    }

    /// Slot seen when the slot last changed.
    pub closed spec fn seen_slot(&self) -> Slot {
        self.last_slot
    }

    /// Consecutive rounds that saw an unchanged slot.
    pub closed spec fn stale_count(&self) -> u32 {
        self.stale_rounds
    }

    /// Starts the loop for a transaction with the given signature and deadline.
    pub fn new(signature: String, timeout_ms: u64) -> (r: Self)
        ensures
            r.sig() == signature@,
            r.deadline() == timeout_ms,
            r.round_count() == 0,
            r.sent_count() == 0,
            r.seen_slot() == 0,
            r.stale_count() == 0,
    {
        ConfirmLoop {
            signature,
            timeout_ms,
            rounds: 0,
            total_leaders_sent: 0,
            last_slot: 0,
            stale_rounds: 0,
        }
    }

    /// Whether another round starts at `elapsed_ms` after the start.
    pub fn should_continue(&self, elapsed_ms: u64) -> (r: bool)
        ensures
            r == (elapsed_ms < self.deadline()),
    {
        elapsed_ms < self.timeout_ms
    }

    /// Starts a round that sees `current_slot`. Returns whether the slot
    /// should be refreshed on demand: the slot has stayed unchanged (and
    /// known) for two rounds after the one that first saw it.
    pub fn begin_round(&mut self, current_slot: Slot) -> (refresh: bool)
        ensures
            final(self).round_count() == clamp_u32(old(self).round_count() + 1),
            final(self).sig() == old(self).sig(),
            final(self).deadline() == old(self).deadline(),
            final(self).sent_count() == old(self).sent_count(),
            current_slot == old(self).seen_slot() && current_slot != 0 ==> {
                &&& final(self).stale_count() == clamp_u32(old(self).stale_count() + 1)
                &&& final(self).seen_slot() == old(self).seen_slot()
                &&& refresh == (final(self).stale_count() >= 2)
            },
            !(current_slot == old(self).seen_slot() && current_slot != 0) ==> {
                &&& final(self).stale_count() == 0
                &&& final(self).seen_slot() == current_slot
                &&& !refresh
            },
    {
        self.rounds = self.rounds.saturating_add(1);
        if current_slot == self.last_slot && current_slot != 0 {
            self.stale_rounds = self.stale_rounds.saturating_add(1);
            self.stale_rounds >= 2
        } else {
            self.stale_rounds = 0;
            self.last_slot = current_slot;
            false
        }
    }

    /// Counts the leaders a round's send reached (`None` when it failed as a whole).
    pub fn record_send(&mut self, leader_count: Option<usize>)
        ensures
            final(self).sent_count() == match leader_count {
                Some(c) => clamp_u32(old(self).sent_count() + c),
                None => old(self).sent_count(),
            },
            final(self).round_count() == old(self).round_count(),
            final(self).sig() == old(self).sig(),
            final(self).deadline() == old(self).deadline(),
            final(self).seen_slot() == old(self).seen_slot(),
            final(self).stale_count() == old(self).stale_count(),
    {
        if let Some(c) = leader_count {
            let c32: u32 = if c > u32::MAX as usize { u32::MAX } else { c as u32 };
            self.total_leaders_sent = self.total_leaders_sent.saturating_add(c32);
        }
    }

    /// How long to pause after a round that ended at `elapsed_ms`: one slot,
    /// or less if the deadline comes sooner.
    pub fn pause_ms(&self, elapsed_ms: u64) -> (r: u64)
        ensures
            r == if self.deadline() - elapsed_ms < SLOT_DURATION_MS {
                if elapsed_ms >= self.deadline() { 0 } else { (self.deadline() - elapsed_ms) as u64 }
            } else {
                SLOT_DURATION_MS
            },
            elapsed_ms + r <= self.deadline() || r == 0,
    {
        let remaining = self.timeout_ms.saturating_sub(elapsed_ms);
        if remaining < SLOT_DURATION_MS {
            remaining
        } else {
            SLOT_DURATION_MS
        }
    }

    /// The result once the transaction is confirmed.
    pub fn confirmed(self, elapsed_ms: u64) -> (r: SendUntilConfirmedResult)
        ensures
            r.confirmed,
            r.signature@ == self.sig(),
            r.rounds == self.round_count(),
            r.total_leaders_sent == self.sent_count(),
            r.latency_ms == clamp_u32(elapsed_ms as int),
            r.error is None,
    {
        SendUntilConfirmedResult {
            confirmed: true,
            signature: self.signature,
            rounds: self.rounds,
            total_leaders_sent: self.total_leaders_sent,
            latency_ms: to_u32(elapsed_ms),
            error: None,
        }
    }

    /// The result once the deadline has passed and the last poll said
    /// `confirmed`.
    pub fn finish(self, confirmed: bool, elapsed_ms: u64) -> (r: SendUntilConfirmedResult)
        ensures
            r.confirmed == confirmed,
            r.signature@ == self.sig(),
            r.rounds == self.round_count(),
            r.total_leaders_sent == self.sent_count(),
            r.latency_ms == clamp_u32(elapsed_ms as int),
            confirmed ==> r.error is None,
            !confirmed ==> (r.error matches Some(e) && e@ == not_confirmed_text(
                self.deadline(),
                self.round_count(),
                self.sent_count(),
            )),
    {
        if confirmed {
            return self.confirmed(elapsed_ms);
        }
        let mut message = String::from_str("Transaction not confirmed within ");
        push_decimal(&mut message, self.timeout_ms);
        message.append("ms (");
        push_decimal(&mut message, self.rounds as u64);
        message.append(" rounds, ");
        push_decimal(&mut message, self.total_leaders_sent as u64);
        message.append(" leaders sent)");
        SendUntilConfirmedResult {
            confirmed: false,
            signature: self.signature,
            rounds: self.rounds,
            total_leaders_sent: self.total_leaders_sent,
            latency_ms: to_u32(elapsed_ms),
            error: Some(message),
        }
    }
}

/// The result when no signature could be read from the transaction.
pub fn signature_failure(error: SignatureError, elapsed_ms: u64) -> (r: SendUntilConfirmedResult)
    ensures
        !r.confirmed,
        r.signature@.len() == 0,
        r.rounds == 0,
        r.total_leaders_sent == 0,
        r.latency_ms == clamp_u32(elapsed_ms as int),
        r.error matches Some(e) && e@ == "Failed to extract signature: "@ + error.message_text(),
{
    let mut message = String::from_str("Failed to extract signature: ");
    let detail = error.message();
    message.append(detail.as_str());
    SendUntilConfirmedResult {
        confirmed: false,
        signature: String::new(),
        rounds: 0,
        total_leaders_sent: 0,
        latency_ms: to_u32(elapsed_ms),
        error: Some(message),
    }
}

/// Caller-visible outcome of sending to one leader.
#[derive(Debug, Clone)]
pub struct LeaderSendResult {
    /// Validator identity public key.
    pub identity: String,
    /// TPU socket address.
    pub address: String,
    /// Whether the send succeeded.
    pub success: bool,
    /// Latency for this leader in milliseconds.
    pub latency_ms: u32,
    /// Error message if failed.
    pub error: Option<String>,
    /// Error code for programmatic handling.
    pub error_code: Option<String>,
    /// Number of attempts made for this leader.
    pub attempts: u32,
}

/// Caller-visible outcome of a send.
#[derive(Debug, Clone)]
pub struct SendResult {
    /// Whether the transaction was delivered to at least one leader.
    pub delivered: bool,
    /// Total latency in milliseconds.
    pub latency_ms: u32,
    /// Number of leaders the transaction was delivered to.
    pub leader_count: u32,
    /// Per-leader outcomes.
    pub leaders: Vec<LeaderSendResult>,
    /// Retries spent across all leaders.
    pub retry_count: u32,
}

/// `r` is the caller-visible form of `lr`: the same fields, counts narrowed
/// to 32 bits (saturating), and the error code as its string code.
pub open spec fn presents(lr: LeaderDeliveryResult, r: LeaderSendResult) -> bool {
    &&& r.identity == lr.identity
    &&& r.address == lr.address
    &&& r.success == lr.success
    &&& r.latency_ms == clamp_u32(lr.latency_ms as int)
    &&& r.error == lr.error
    &&& match lr.error_code {
        Some(c) => r.error_code matches Some(s) && s@ == c.code_text(),
        None => r.error_code is None,
    }
    &&& r.attempts == clamp_u32(lr.attempts as int)
}

impl LeaderSendResult {
    /// The caller-visible form of a per-leader outcome.
    pub fn from_delivery(lr: LeaderDeliveryResult) -> (r: LeaderSendResult)
        ensures
            presents(lr, r),
    {
        let ghost original = lr;
        let LeaderDeliveryResult { identity, address, success, latency_ms, error, error_code, attempts } = lr;
        let code = match error_code {
            Some(c) => Some(c.to_string()),
            None => None,
        };
        LeaderSendResult {
            identity,
            address,
            success,
            latency_ms: to_u32(latency_ms),
            error,
            error_code: code,
            attempts: to_u32(attempts as u64),
        }
    }
}

impl SendResult {
    /// The caller-visible form of a delivery outcome.
    pub fn from_delivery(result: DeliveryResult) -> (r: SendResult)
        ensures
            r.delivered == result.delivered,
            r.latency_ms == clamp_u32(result.latency_ms as int),
            r.leader_count == clamp_u32(result.leader_count as int),
            r.retry_count == clamp_u32(result.total_retries as int),
            r.leaders@.len() == result.leaders@.len(),
            forall|k: int| 0 <= k < r.leaders@.len() ==> presents(result.leaders@[k], #[trigger] r.leaders@[k]),
    {
        let DeliveryResult { delivered, latency_ms, leader_count, leaders, total_retries } = result;
        let ghost source = leaders@;
        let mut converted: Vec<LeaderSendResult> = Vec::new();
        for lr in it: leaders.into_iter()
            invariant
                it.seq() == source,
                converted@.len() == it.index(),
                forall|k: int| 0 <= k < converted@.len() ==> presents(source[k], #[trigger] converted@[k]),
        {
            converted.push(LeaderSendResult::from_delivery(lr));
        }
        SendResult {
            delivered,
            latency_ms: to_u32(latency_ms),
            leader_count: to_u32(leader_count as u64),
            leaders: converted,
            retry_count: to_u32(total_retries as u64),
        }
    }
}

/// Client configuration.
#[derive(Debug, Clone)]
pub struct TpuClientConfig {
    /// RPC URL for schedule, cluster and status queries.
    pub rpc_url: String,
    /// WebSocket URL for slot update subscriptions.
    pub ws_url: String,
    /// gRPC URL of a monotonic slot source, preferred when set.
    pub grpc_url: Option<String>,
    /// Access token for the gRPC source.
    pub grpc_x_token: Option<String>,
    /// Number of distinct leaders to target per send (default 4).
    pub fanout: Option<u32>,
    /// Whether to pre-warm connections to upcoming leaders (default true).
    pub prewarm_connections: Option<bool>,
}

impl TpuClientConfig {
    /// The configured fan-out, or the default.
    pub open spec fn fanout_value(&self) -> u32 {
        match self.fanout {
            Some(f) => f,
            None => DEFAULT_FANOUT,
        }
    }

    /// The fan-out to use.
    pub fn fanout_or_default(&self) -> (r: u32)
        ensures
            r == self.fanout_value(),
    {
        match self.fanout {
            Some(f) => f,
            None => DEFAULT_FANOUT,
        }
    }

    /// Whether to pre-warm connections.
    pub fn prewarm_enabled(&self) -> (r: bool)
        ensures
            r == match self.prewarm_connections {
                Some(p) => p,
                None => true,
            },
    {
        match self.prewarm_connections {
            Some(p) => p,
            None => true,
        }
    }

    /// How many slots ahead pre-warming looks: four per leader of the fan-out.
    pub fn prewarm_lookahead(&self) -> (r: u64)
        ensures
            r == self.fanout_value() as u64 * 4,
    {
        self.fanout_or_default() as u64 * 4
    }
}

/// Client health and statistics.
#[derive(Debug, Clone)]
pub struct TpuClientStats {
    /// Number of live QUIC connections.
    pub connection_count: u32,
    /// Current estimated slot.
    pub current_slot: u32,
    /// Number of QUIC endpoints.
    pub endpoint_count: u32,
    /// "ready" once slot events arrive, "initializing" before.
    pub ready_state: String,
    /// Seconds since the client was created.
    pub uptime_secs: u32,
    /// Number of validators with known sockets.
    pub known_validators: u32,
}

impl TpuClientStats {
    /// Assembles the statistics, narrowing counts to 32 bits (saturating).
    pub fn new(
        connection_count: usize,
        current_slot: Slot,
        endpoint_count: usize,
        ready: bool,
        uptime_secs: u64,
        known_validators: usize,
    ) -> (r: Self)
        ensures
            r.connection_count == clamp_u32(connection_count as int),
            r.current_slot == clamp_u32(current_slot as int),
            r.endpoint_count == clamp_u32(endpoint_count as int),
            r.ready_state@ == if ready { "ready"@ } else { "initializing"@ },
            r.uptime_secs == clamp_u32(uptime_secs as int),
            r.known_validators == clamp_u32(known_validators as int),
    {
        TpuClientStats {
            connection_count: to_u32(connection_count as u64),
            current_slot: to_u32(current_slot),
            endpoint_count: to_u32(endpoint_count as u64),
            ready_state: if ready { String::from_str("ready") } else { String::from_str("initializing") },
            uptime_secs: to_u32(uptime_secs),
            known_validators: to_u32(known_validators as u64),
        }
    }
}

} // verus!
