//! Planning of the header synchronization loop.
//!
//! The loop itself — RPC clients, timers, transaction submission — is I/O and
//! lives with the caller. What is decided here is the loop's plan: how often
//! each side is polled, how much is queued or submitted at once, and whether
//! submissions are signed. The caller runs the loop exactly as planned.

use vstd::prelude::*;

verus! {

/// Interval in seconds at which new source-chain headers are checked.
pub const SOURCE_TICK_SECS: u64 = 10;
/// Interval in seconds at which new target-chain blocks are checked.
pub const TARGET_TICK_SECS: u64 = 5;
/// Max number of headers in single submit transaction.
pub const MAX_HEADERS_IN_SINGLE_SUBMIT: usize = 32;
/// Max total size of headers in single submit transaction, assuming 4096
/// bytes for a header with its receipts.
pub const MAX_HEADERS_SIZE_IN_SINGLE_SUBMIT: usize = 32 * 4096;
/// Max headers to hold in all not-yet-submitted states.
pub const MAX_FUTURE_HEADERS_TO_DOWNLOAD: usize = 128;
/// Max headers to hold in submitted state.
pub const MAX_SUBMITTED_HEADERS: usize = 128;
/// Depth past which in-memory headers are pruned.
pub const PRUNE_DEPTH: u32 = 4096;

/// How submissions to the target chain are made.
#[derive(Clone, Copy, PartialEq, Eq, Structural, Debug)]
pub enum TargetTransactionMode {
    /// Submit signed transactions.
    Signed,
    /// Submit unsigned transactions.
    Unsigned,
    /// Submit unsigned transactions, but keep signing credentials at hand.
    Backup,
}

/// Synchronization parameters.
#[derive(Clone, Copy, PartialEq, Eq, Structural, Debug)]
pub struct HeadersSyncParams {
    /// Max headers to hold in all not-yet-submitted states.
    pub max_future_headers_to_download: usize,
    /// Max headers to hold in submitted state.
    pub max_headers_in_submitted_status: usize,
    /// Max number of headers in single submit transaction.
    pub max_headers_in_single_submit: usize,
    /// Max total size of headers in single submit transaction.
    pub max_headers_size_in_single_submit: usize,
    /// Depth past which in-memory headers are pruned.
    pub prune_depth: u32,
    /// How submissions to the target chain are made.
    pub target_tx_mode: TargetTransactionMode,
}

/// Parameters of one synchronization run. Connection and signing settings are
/// I/O configuration and stay with the caller that owns the clients.
#[derive(Clone, Copy, PartialEq, Eq, Structural, Debug)]
pub struct EthereumSyncParams {
    /// Synchronization parameters.
    pub sync_params: HeadersSyncParams,
}

impl Default for EthereumSyncParams {
    /// The default plan: generous queues, signed submissions.
    fn default() -> (r: Self)
        ensures
            r.sync_params.max_future_headers_to_download == MAX_FUTURE_HEADERS_TO_DOWNLOAD,
            r.sync_params.max_headers_in_submitted_status == MAX_SUBMITTED_HEADERS,
            r.sync_params.max_headers_in_single_submit == MAX_HEADERS_IN_SINGLE_SUBMIT,
            r.sync_params.max_headers_size_in_single_submit == MAX_HEADERS_SIZE_IN_SINGLE_SUBMIT,
            r.sync_params.prune_depth == PRUNE_DEPTH,
            r.sync_params.target_tx_mode == TargetTransactionMode::Signed,
    {
        EthereumSyncParams {
            sync_params: HeadersSyncParams {
                max_future_headers_to_download: MAX_FUTURE_HEADERS_TO_DOWNLOAD,
                max_headers_in_submitted_status: MAX_SUBMITTED_HEADERS,
                max_headers_in_single_submit: MAX_HEADERS_IN_SINGLE_SUBMIT,
                max_headers_size_in_single_submit: MAX_HEADERS_SIZE_IN_SINGLE_SUBMIT,
                prune_depth: PRUNE_DEPTH,
                target_tx_mode: TargetTransactionMode::Signed,
            },
        }
    }
}

/// The plan a caller's loop follows: the polling intervals, the queue and
/// submission bounds, and whether transactions are signed.
#[derive(Clone, Copy, PartialEq, Eq, Structural, Debug)]
pub struct SyncLoopPlan {
    /// Whether submitted transactions are signed.
    pub sign_transactions: bool,
    /// Interval in seconds between source-chain polls.
    pub source_tick_secs: u64,
    /// Interval in seconds between target-chain polls.
    pub target_tick_secs: u64,
    /// Synchronization parameters, handed through unchanged.
    pub sync_params: HeadersSyncParams,
}

/// Plan a headers synchronization run: submissions are signed exactly in the
/// `Signed` and `Backup` modes, and each side is polled at its fixed tick.
pub fn run(params: EthereumSyncParams) -> (r: SyncLoopPlan)
    ensures
        r.sign_transactions == (params.sync_params.target_tx_mode == TargetTransactionMode::Signed
            || params.sync_params.target_tx_mode == TargetTransactionMode::Backup),
        r.source_tick_secs == SOURCE_TICK_SECS,
        r.target_tick_secs == TARGET_TICK_SECS,
        r.sync_params == params.sync_params,
{
    let sign_transactions = match params.sync_params.target_tx_mode {
        TargetTransactionMode::Signed => true,
        TargetTransactionMode::Backup => true,
        TargetTransactionMode::Unsigned => false,
    };
    SyncLoopPlan {
        sign_transactions,
        source_tick_secs: SOURCE_TICK_SECS,
        target_tick_secs: TARGET_TICK_SECS,
        sync_params: params.sync_params,
    }
}

} // verus!
