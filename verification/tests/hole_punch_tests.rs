use nudge::socket::boundary_sync_delay;
use nudge::socket::burst_frame;
use nudge::socket::confirm_frame;
use nudge::socket::keep_waiting;
use nudge::socket::pacing_sleep_ms;
use nudge::socket::PunchPhase;
use nudge::socket::HOLE_PUNCH_PHASE_MS;
use nudge::socket::HOLE_PUNCH_ROUNDS;
use nudge::socket::HOLE_PUNCH_ROUND_MS;

#[test]
fn test_burst_parameters() {
    assert_eq!(HOLE_PUNCH_ROUNDS, 40);
    assert_eq!(HOLE_PUNCH_ROUND_MS, 50);
    assert_eq!(HOLE_PUNCH_PHASE_MS, 500);
}

#[test]
fn test_boundary_sync_delay() {
    assert_eq!(boundary_sync_delay(1000, 500), 500);
    assert_eq!(boundary_sync_delay(1499, 500), 1);
    assert_eq!(boundary_sync_delay(1201, 500), 299);
}

#[test]
fn test_pacing_sleep() {
    assert_eq!(pacing_sleep_ms(50, 0), 50);
    assert_eq!(pacing_sleep_ms(50, 20), 30);
    assert_eq!(pacing_sleep_ms(50, 50), 0);
    assert_eq!(pacing_sleep_ms(50, 80), 0);
}

#[test]
fn test_receive_phases() {
    // Draining the peer's burst: one-byte datagrams keep it going.
    assert!(keep_waiting(PunchPhase::AwaitBurstEnd, 1));
    assert!(!keep_waiting(PunchPhase::AwaitBurstEnd, 2));
    assert!(!keep_waiting(PunchPhase::AwaitBurstEnd, 0));
    // Waiting for the confirmation: anything but two bytes keeps waiting.
    assert!(keep_waiting(PunchPhase::AwaitConfirm, 1));
    assert!(!keep_waiting(PunchPhase::AwaitConfirm, 2));
    // Draining confirmations: two-byte datagrams keep it going.
    assert!(keep_waiting(PunchPhase::DrainConfirm, 2));
    assert!(!keep_waiting(PunchPhase::DrainConfirm, 1));
}

#[test]
fn test_frames() {
    assert_eq!(burst_frame(), vec![0u8]);
    assert_eq!(confirm_frame(), vec![0u8, 0u8]);
}
