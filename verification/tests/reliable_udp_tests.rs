use nudge::error::NudgeError;
use nudge::reliable_udp::AckWaitEvent;
use nudge::reliable_udp::AckWaitStep;
use nudge::reliable_udp::ReliableUdpSocket;
use nudge::transfer::split_into_chunks;
use nudge::reliable_udp::KIND_ACK;
use nudge::reliable_udp::KIND_RESEND;

#[test]
fn test_reliable_udp_socket_new() {
    let reliable_socket = ReliableUdpSocket::new();
    assert_eq!(reliable_socket.sent_packets_count, 0);
    assert_eq!(reliable_socket.received_packets_count, 0);
}

#[test]
fn test_internal_write_data_packet_limit_exceeded() {
    let mut reliable_socket = ReliableUdpSocket::new();
    let large_data = vec![0u8; 0x10000];
    let result = reliable_socket.write_and_flush(&large_data, false, 10);
    assert!(matches!(result, Err(NudgeError::DataPacketLimitExceeded(_))));
}

#[test]
fn test_read_buffer_limit() {
    assert!(matches!(
        ReliableUdpSocket::check_read_buffer(65533),
        Err(NudgeError::BufferSizeLimitExceeded(65533))
    ));
    assert!(ReliableUdpSocket::check_read_buffer(65532).is_ok());
}

#[test]
fn test_wrap_boundary_forces_flush() {
    let mut sender = ReliableUdpSocket::new();
    let data = [7u8; 1];
    for i in 0..0x10000usize {
        let plan = sender.write_and_flush(&data, false, 0).unwrap();
        assert_eq!(plan.wait_for_ack, i == 0xffff, "at sequence {}", i);
    }
}

/// Runs a whole transfer through the two state machines over a synthetic
/// network that drops the WRITE frames `drop` names on their first pass.
/// Returns the delivered bytes and the resend requests that were observed.
fn run_transfer(data: &[u8], chunk_size: usize, drop: &[usize]) -> (Vec<u8>, Vec<u16>, u64) {
    let chunks = split_into_chunks(&data.to_vec(), chunk_size);
    let mut sender = ReliableUdpSocket::new();
    let mut receiver = ReliableUdpSocket::new();
    let mut received: Vec<u8> = Vec::new();
    let mut resend_requests: Vec<u16> = Vec::new();
    let mut write_frames: Vec<Vec<u8>> = Vec::new();

    // The paced burst: no per-frame acknowledgment wait.
    for (i, chunk) in chunks.iter().enumerate() {
        let plan = sender.write_and_flush(chunk, false, 0).unwrap();
        assert!(!plan.wait_for_ack);
        write_frames.push(plan.datagram.clone());
        if !drop.contains(&i) {
            let step = receiver.handle_packet(&plan.datagram);
            if let Some(payload) = step.payload {
                received.extend_from_slice(&payload);
            }
            if let Some(reply) = step.reply {
                if reply[2] == KIND_RESEND {
                    resend_requests.push(u16::from(reply[0]) * 256 + u16::from(reply[1]));
                }
                // Acknowledgments of the burst wait in the sender's socket
                // buffer; the sender reads them only in its next wait.
            }
        }
    }

    // End of stream: the sender flushes and recovers what was lost.
    let end_plan = sender.end();
    assert!(end_plan.wait_for_ack);
    assert!(end_plan.exit_on_lost);
    let end_seq = (chunks.len() % 0x10000) as u16;

    let mut rounds = 0usize;
    while receiver.received_packets_count < chunks.len() as u64 {
        rounds += 1;
        assert!(rounds < 10 * chunks.len() + 10, "recovery did not converge");
        // A duplicate of the sender's last frame nudges the receiver into
        // naming the sequence it is missing.
        let trigger = write_frames.last().unwrap().clone();
        let step = receiver.handle_packet(&trigger);
        if let Some(payload) = step.payload {
            received.extend_from_slice(&payload);
            continue;
        }
        let reply = step.reply.expect("an out-of-order frame provokes a reply");
        if reply[2] == KIND_RESEND {
            resend_requests.push(u16::from(reply[0]) * 256 + u16::from(reply[1]));
            match sender.wait_step(end_seq, true, &AckWaitEvent::Datagram(reply), 0) {
                AckWaitStep::Resend(frame) => {
                    let recovery = receiver.handle_packet(&frame);
                    if let Some(payload) = recovery.payload {
                        received.extend_from_slice(&payload);
                    }
                    if let Some(ack) = recovery.reply {
                        assert_eq!(ack[2], KIND_ACK);
                        let step =
                            sender.wait_step(end_seq, true, &AckWaitEvent::Datagram(ack), 0);
                        assert!(matches!(step, AckWaitStep::Continue));
                    }
                }
                other => panic!("expected a resend, got {:?}", step_name(&other)),
            }
        }
    }

    // The delayed end-of-stream frame arrives last and is acknowledged.
    let step = receiver.handle_packet(&end_plan.datagram);
    assert!(step.finished);
    let ack = step.reply.expect("the end frame is acknowledged");
    assert_eq!(ack[2], KIND_ACK);
    match sender.wait_step(end_seq, true, &AckWaitEvent::Datagram(ack), 0) {
        AckWaitStep::Done => {}
        other => panic!("expected the wait to end, got {:?}", step_name(&other)),
    }

    (received, resend_requests, receiver.received_packets_count)
}

fn step_name(step: &AckWaitStep) -> &'static str {
    match step {
        AckWaitStep::Continue => "Continue",
        AckWaitStep::Done => "Done",
        AckWaitStep::Resend(_) => "Resend",
        AckWaitStep::GiveUp => "GiveUp",
    }
}

#[test]
fn test_happy_path_two_chunk_file() {
    let data: Vec<u8> = b"abc".repeat(1667);
    let chunks = split_into_chunks(&data, 4096);
    assert_eq!(chunks.len(), 2);
    let (received, resends, frames_accepted) = run_transfer(&data, 4096, &[]);
    assert_eq!(received, data);
    assert!(resends.is_empty());
    assert_eq!(frames_accepted, 3);
}

#[test]
fn test_exactly_one_chunk_file() {
    let data = vec![0x5au8; 4096];
    let chunks = split_into_chunks(&data, 4096);
    assert_eq!(chunks.len(), 1);
    let (received, _, _) = run_transfer(&data, 4096, &[]);
    assert_eq!(received.len(), 4096);
    assert_eq!(received, data);
}

#[test]
fn test_empty_file() {
    let data: Vec<u8> = Vec::new();
    let chunks = split_into_chunks(&data, 4096);
    assert_eq!(chunks.len(), 0);
    let (received, resends, _) = run_transfer(&data, 4096, &[]);
    assert!(received.is_empty());
    assert!(resends.is_empty());
}

#[test]
fn test_forced_packet_loss() {
    // 30 chunks of 16 bytes; every 7th WRITE is dropped on its first pass.
    let data: Vec<u8> = (0..480u32).map(|i| (i % 251) as u8).collect();
    let dropped: Vec<usize> = (0..30).filter(|i| i % 7 == 6).collect();
    let (received, resends, _) = run_transfer(&data, 16, &dropped);
    assert_eq!(received, data);
    for seq in &dropped {
        assert!(
            resends.contains(&(*seq as u16)),
            "no resend was requested for dropped sequence {}",
            seq
        );
    }
}

#[test]
fn test_single_write_drop_is_recovered_by_the_probe() {
    let mut sender = ReliableUdpSocket::new();
    let mut receiver = ReliableUdpSocket::new();
    let payload = b"hello".to_vec();

    // Flushed write whose frame the network drops.
    let plan = sender.write_and_flush(&payload, true, 0).unwrap();
    assert!(plan.wait_for_ack);

    // Nothing arrives; after ten seconds the sender probes again.
    let step = sender.wait_step(0, false, &AckWaitEvent::TimedOut, 10001);
    let frame = match step {
        AckWaitStep::Resend(frame) => frame,
        other => panic!("expected a resend, got {:?}", step_name(&other)),
    };

    // The probe is delivered and acknowledged; the wait ends.
    let recovery = receiver.handle_packet(&frame);
    assert_eq!(recovery.payload.as_deref(), Some(payload.as_slice()));
    let ack = recovery.reply.unwrap();
    assert_eq!(ack[2], KIND_ACK);
    assert!(matches!(
        sender.wait_step(0, false, &AckWaitEvent::Datagram(ack), 0),
        AckWaitStep::Done
    ));
    assert_eq!(receiver.received_packets_count, 1);
}

#[test]
fn test_single_ack_drop_is_recovered_without_double_delivery() {
    let mut sender = ReliableUdpSocket::new();
    let mut receiver = ReliableUdpSocket::new();
    let payload = b"hello".to_vec();

    let plan = sender.write_and_flush(&payload, true, 0).unwrap();
    let first = receiver.handle_packet(&plan.datagram);
    assert_eq!(first.payload.as_deref(), Some(payload.as_slice()));
    // The acknowledgment is dropped; the sender probes after ten seconds.
    let step = sender.wait_step(0, false, &AckWaitEvent::TimedOut, 10001);
    let frame = match step {
        AckWaitStep::Resend(frame) => frame,
        other => panic!("expected a resend, got {:?}", step_name(&other)),
    };

    // The duplicate is re-acknowledged but not delivered again.
    let duplicate = receiver.handle_packet(&frame);
    assert!(duplicate.payload.is_none());
    let ack = duplicate.reply.unwrap();
    assert_eq!(ack[2], KIND_ACK);
    assert!(matches!(
        sender.wait_step(0, false, &AckWaitEvent::Datagram(ack), 0),
        AckWaitStep::Done
    ));
    assert_eq!(receiver.received_packets_count, 1);
}

#[test]
fn test_out_of_order_frame_names_the_missing_sequence() {
    let mut sender = ReliableUdpSocket::new();
    let mut receiver = ReliableUdpSocket::new();

    let first = sender.write_and_flush(b"one", false, 0).unwrap();
    let second = sender.write_and_flush(b"two", false, 0).unwrap();

    // The second frame arrives first: the receiver delivers nothing and
    // asks for sequence 0.
    let step = receiver.handle_packet(&second.datagram);
    assert!(step.payload.is_none());
    let reply = step.reply.unwrap();
    assert_eq!(reply[2], KIND_RESEND);
    assert_eq!(u16::from(reply[0]) * 256 + u16::from(reply[1]), 0);
    assert_eq!(receiver.received_packets_count, 0);

    // The first frame arrives: delivered, and the counter advances.
    let step = receiver.handle_packet(&first.datagram);
    assert_eq!(step.payload.as_deref(), Some(b"one".as_slice()));
    assert_eq!(receiver.received_packets_count, 1);

    // The second frame again: now in order.
    let step = receiver.handle_packet(&second.datagram);
    assert_eq!(step.payload.as_deref(), Some(b"two".as_slice()));
    assert_eq!(receiver.received_packets_count, 2);
}

#[test]
fn test_give_up_when_the_session_is_lost() {
    let mut sender = ReliableUdpSocket::new();
    let _ = sender.end();
    let step = sender.wait_step(0, true, &AckWaitEvent::TimedOut, 5001);
    assert!(matches!(step, AckWaitStep::GiveUp));
}

#[test]
fn test_short_datagrams_are_ignored() {
    let mut receiver = ReliableUdpSocket::new();
    let step = receiver.handle_packet(&vec![0u8, 1u8]);
    assert!(step.reply.is_none());
    assert!(step.payload.is_none());
    assert!(!step.finished);
    assert_eq!(receiver.received_packets_count, 0);
}

#[test]
fn test_payload_at_the_cap_is_accepted() {
    let mut sender = ReliableUdpSocket::new();
    let data = vec![1u8; 65532];
    let plan = sender.write_and_flush(&data, false, 0).unwrap();
    assert_eq!(plan.datagram.len(), 65535);
}

#[test]
fn test_transfer_across_the_sequence_wrap() {
    // More chunks than a 16-bit sequence can name: the counter wraps, the
    // wrap boundary forces an acknowledgment wait, and delivery stays in
    // order throughout.
    let total = 0x10000 + 40;
    let data: Vec<u8> = (0..total).map(|i| (i % 253) as u8).collect();
    let mut sender = ReliableUdpSocket::new();
    let mut receiver = ReliableUdpSocket::new();
    let mut received: Vec<u8> = Vec::new();

    for chunk in data.chunks(1) {
        let plan = sender.write_and_flush(chunk, false, 0).unwrap();
        let step = receiver.handle_packet(&plan.datagram);
        if let Some(payload) = step.payload {
            received.extend_from_slice(&payload);
        }
        let ack = step.reply.expect("each in-order frame is acknowledged");
        assert_eq!(ack[2], KIND_ACK);
        if plan.wait_for_ack {
            let target = ((sender.sent_packets_count - 1) % 0x10000) as u16;
            assert!(matches!(
                sender.wait_step(target, false, &AckWaitEvent::Datagram(ack), 0),
                AckWaitStep::Done
            ));
        }
    }
    assert_eq!(received, data);
    assert_eq!(receiver.received_packets_count, total as u64);
}
