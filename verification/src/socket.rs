//! Timing and framing decisions of the hole-punch synchronizer: both peers
//! align on a wall-clock boundary, burst one-byte datagrams, then confirm
//! mutual reachability with two-byte datagrams.  The sleeps and the socket
//! itself belong to the embedding binary; the constants, delays and phase
//! decisions are all here.

use vstd::prelude::*;

verus! {

/// How many one-byte burst datagrams each peer sends.
pub const HOLE_PUNCH_ROUNDS: u64 = 40;

/// The pacing interval of the burst, in milliseconds.
pub const HOLE_PUNCH_ROUND_MS: u64 = 50;

/// The wall-clock boundary both peers align their bursts on.
pub const HOLE_PUNCH_PHASE_MS: u64 = 500;

/// The three receive phases after the burst, in order: drain the peer's
/// one-byte burst, wait for its two-byte confirmation, then drain the
/// confirmations.
#[derive(Debug, Clone, Copy, PartialEq, Eq, Structural)]
pub enum PunchPhase {
    AwaitBurstEnd,
    AwaitConfirm,
    DrainConfirm,
}

/// How long to sleep so that the next action lands exactly on the next
/// `interval_ms` boundary of the wall clock.
pub fn boundary_sync_delay(now_ms: u64, interval_ms: u64) -> (r: u64)
    requires
        interval_ms > 0,
    ensures
        r == interval_ms - now_ms % interval_ms,
        1 <= r <= interval_ms,
{
    interval_ms - now_ms % interval_ms
}

/// How long to sleep after one burst round so that the round as a whole
/// takes `interval_ms`: the remainder of the interval, or nothing when
/// the send already ran long.
pub fn pacing_sleep_ms(interval_ms: u64, elapsed_ms: u64) -> (r: u64)
    ensures
        elapsed_ms < interval_ms ==> r == interval_ms - elapsed_ms,
        elapsed_ms >= interval_ms ==> r == 0,
{
    if elapsed_ms < interval_ms {
        interval_ms - elapsed_ms
    } else {
        0
    }
}

/// Whether a receive phase keeps draining after a datagram of
/// `received_len` bytes: the burst drain runs while one-byte datagrams
/// arrive, the confirmation wait until a two-byte one does, and the
/// confirmation drain while two-byte ones keep coming.
pub fn keep_waiting(phase: PunchPhase, received_len: usize) -> (r: bool)
    ensures
        phase is AwaitBurstEnd ==> (r <==> received_len == 1),
        phase is AwaitConfirm ==> (r <==> received_len != 2),
        phase is DrainConfirm ==> (r <==> received_len == 2),
{
    match phase {
        PunchPhase::AwaitBurstEnd => received_len == 1,
        PunchPhase::AwaitConfirm => received_len != 2,
        PunchPhase::DrainConfirm => received_len == 2,
    }
}

/// The one-byte datagram of the burst.
pub fn burst_frame() -> (r: Vec<u8>)
    ensures
        r@ == seq![0u8],
{
    let mut frame: Vec<u8> = Vec::new();
    frame.push(0);
    proof {
        assert(frame@ =~= seq![0u8]);
    }
    frame
}

/// The two-byte datagram that confirms the peer's burst was heard.
pub fn confirm_frame() -> (r: Vec<u8>)
    ensures
        r@ == seq![0u8, 0u8],
{
    let mut frame: Vec<u8> = Vec::new();
    frame.push(0);
    frame.push(0);
    proof {
        assert(frame@ =~= seq![0u8, 0u8]);
    }
    frame
}

} // verus!
