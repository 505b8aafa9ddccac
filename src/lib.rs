//! Leader-aware transaction delivery: slot estimation, per-epoch leader
//! schedules, leader routing, per-leader retry and aggregation, and the
//! resubmit-until-confirmed control loop.

use vstd::prelude::*;

pub mod client;
pub mod connection_manager;
pub mod errors;
pub mod leader_tracker;
pub mod schedule_tracker;
pub mod slots_tracker;
pub mod text;

pub use client::{
    extract_signature, is_confirmed, signature_failure, ConfirmLoop, ConfirmationStatus,
    LeaderSendResult, SendResult, SendUntilConfirmedResult, SignatureError, SignatureStatus,
    TpuClientConfig, TpuClientStats,
};
pub use connection_manager::{
    aggregate_delivery, quic_server_name, DeliveryError, DeliveryResult, LeaderDeliveryResult,
    LeaderSendState,
};
pub use errors::{classify_error, classify_message, is_retryable_error, TpuErrorCode};
pub use leader_tracker::{ClusterNode, LeaderInfo, LeaderTracker, TpuSockets};
pub use schedule_tracker::{schedule_from_leader_slots, ScheduleError, ScheduleTracker};
pub use slots_tracker::{SlotEvent, SlotsTracker};

verus! {

/// Slot numbers.
pub type Slot = u64;

/// Slots beyond the expected current slot that an event may claim before it
/// is treated as an outlier.
pub const MAX_SLOT_SKIP_DISTANCE: u64 = 48;

/// Number of recent slot events kept for estimation.
pub const RECENT_LEADER_SLOTS_CAPACITY: usize = 48;

/// Consecutive slots assigned to one leader.
pub const NUM_CONSECUTIVE_LEADER_SLOTS: u64 = 4;

} // verus!
