//! The reliable datagram transport: stop-and-wait with sequence numbers,
//! acknowledgments, resend requests and an end-of-stream marker, layered on
//! an unreliable datagram path.  This module holds the whole protocol state
//! and every decision; the embedding binary only moves datagrams between
//! these functions and its socket and clock.
//!
//! Each datagram is `[seq_hi, seq_lo, kind]` followed by up to 65532
//! payload bytes.  The sender acknowledges sequence numbers only at flush
//! points and at the wrap boundary; the receiver delivers payloads strictly
//! in order and asks for what it missed.

use std::collections::HashMap;
use vstd::prelude::*;

use crate::error::NudgeError;
use crate::error::Result;

verus! {

/// The hard cap on a datagram's payload, keeping the whole frame below
/// 65535 bytes.
pub const MAX_DATA_SIZE: usize = 0xfffc;

/// Kind byte of a payload-carrying frame.
pub const KIND_WRITE: u8 = 0;

/// Kind byte of an acknowledgment frame.
pub const KIND_ACK: u8 = 1;

/// Kind byte of a resend request; its sequence names the missing frame.
pub const KIND_RESEND: u8 = 2;

/// Kind byte of the end-of-stream frame.
pub const KIND_END: u8 = 3;

/// The four kinds of frame on the data path.
#[derive(Debug, Clone, Copy, PartialEq, Eq, Structural)]
pub enum PacketType {
    Write,
    Acknowledgment,
    ResendRequest,
    EndSession,
}

/// The kind byte that encodes a [`PacketType`] on the wire.
pub open spec fn kind_byte(t: PacketType) -> u8 {
    match t {
        PacketType::Write => KIND_WRITE,
        PacketType::Acknowledgment => KIND_ACK,
        PacketType::ResendRequest => KIND_RESEND,
        PacketType::EndSession => KIND_END,
    }
}

/// The kind byte of `t`, as sent.
pub fn packet_type_byte(t: PacketType) -> (r: u8)
    ensures
        r == kind_byte(t),
{
    match t {
        PacketType::Write => KIND_WRITE,
        PacketType::Acknowledgment => KIND_ACK,
        PacketType::ResendRequest => KIND_RESEND,
        PacketType::EndSession => KIND_END,
    }
}

/// The sequence number carried by the first two header bytes.
pub open spec fn seq_of_bytes(hi: u8, lo: u8) -> u16 {
    (hi as u16 * 256 + lo as u16) as u16
}

/// The three header bytes of a frame.
pub open spec fn header_seq(seq: u16, kind: PacketType) -> Seq<u8> {
    seq![(seq / 256) as u8, (seq % 256) as u8, kind_byte(kind)]
}

/// A header parses back to the sequence number it was built from.
pub proof fn lemma_header_round_trip(seq: u16, kind: PacketType)
    ensures
        seq_of_bytes(header_seq(seq, kind)[0], header_seq(seq, kind)[1]) == seq,
{
    vstd::arithmetic::div_mod::lemma_fundamental_div_mod(seq as int, 256);
}

/// Builds one wire frame: the three header bytes, then the payload.
pub fn encode_packet(seq: u16, kind: PacketType, data: &[u8]) -> (r: Vec<u8>)
    requires
        data@.len() <= MAX_DATA_SIZE,
    ensures
        r@ == header_seq(seq, kind) + data@,
{
    let mut frame: Vec<u8> = Vec::new();
    frame.push((seq / 256) as u8);
    frame.push((seq % 256) as u8);
    frame.push(packet_type_byte(kind));
    frame.extend_from_slice(data);
    proof {
        assert(frame@ =~= header_seq(seq, kind) + data@);
    }
    frame
}

/// Reads the sequence number out of two header bytes.
pub fn parse_seq(hi: u8, lo: u8) -> (r: u16)
    ensures
        r == seq_of_bytes(hi, lo),
{
    hi as u16 * 256 + lo as u16
}

/// The sequence number the counter will stamp on the next frame.
pub open spec fn seq16(count: u64) -> u16 {
    (count % 0x10000) as u16
}

/// What the sender must do after handing a frame to the transport: send
/// this datagram, pace by the delay, and wait for its acknowledgment only
/// where the transport says so.
pub struct WritePlan {
    /// The frame to put on the wire, retrying until fully sent.
    pub datagram: Vec<u8>,
    /// Whether to run the acknowledgment wait before the next write.
    pub wait_for_ack: bool,
    /// Whether an unacknowledged wait may be abandoned after five seconds.
    pub exit_on_lost: bool,
    /// Microseconds of pacing sleep after the send.
    pub delay_micros: u64,
}

/// What the sender's acknowledgment wait asks of its caller next.
pub enum AckWaitStep {
    /// Keep receiving.
    Continue,
    /// The awaited frame is acknowledged; the wait is over.
    Done,
    /// Put this stored frame on the wire again and reset the wait timer.
    Resend(Vec<u8>),
    /// Give the frame up for lost and leave the wait.
    GiveUp,
}

/// One observation made while waiting for an acknowledgment.
pub enum AckWaitEvent {
    /// A datagram arrived.
    Datagram(Vec<u8>),
    /// The read timed out; `elapsed_ms` says how stale the wait is.
    TimedOut,
}

/// The transport state of one peer: the sender side's in-flight frames and
/// counter, and the receiver side's delivery counter.  The ghost `delivered`
/// field records every payload byte handed to the caller, in order.
pub struct ReliableUdpSocket {
    /// In-flight frames by sequence number, kept for resend requests.
    pub last_transmitted: HashMap<u16, Vec<u8>>,
    /// Frames emitted so far; the low 16 bits stamp the next frame.
    pub sent_packets_count: u64,
    /// In-order frames accepted so far; the low 16 bits name the next
    /// expected sequence number.
    pub received_packets_count: u64,
    /// Every payload byte delivered to the caller, in order.
    pub delivered: Ghost<Seq<u8>>,
}

impl ReliableUdpSocket {
    /// A fresh transport: nothing sent, nothing received.
    pub fn new() -> (r: ReliableUdpSocket)
        ensures
            r.sent_packets_count == 0,
            r.received_packets_count == 0,
            r.last_transmitted@ == Map::<u16, Vec<u8>>::empty(),
            r.delivered@ == Seq::<u8>::empty(),
    {
        ReliableUdpSocket {
            last_transmitted: HashMap::new(),
            sent_packets_count: 0,
            received_packets_count: 0,
            delivered: Ghost(Seq::empty()),
        }
    }

    /// Stamps `data` with the next sequence number as a WRITE frame,
    /// records it for resends, and says whether to wait for the
    /// acknowledgment: at an explicit flush and at the wrap boundary.
    /// Payloads over the datagram cap are refused outright.
    pub fn write_and_flush(&mut self, data: &[u8], should_flush: bool, delay: u64) -> (r: Result<
        WritePlan,
    >)
        requires
            old(self).sent_packets_count < u64::MAX,
        ensures
            r is Err <==> data@.len() > MAX_DATA_SIZE,
            r is Err ==> (r matches Err(NudgeError::DataPacketLimitExceeded(n)) && n == data@.len()
                && *final(self) == *old(self)),
            r matches Ok(plan) ==> {
                let seq = seq16(old(self).sent_packets_count);
                &&& plan.datagram@ == header_seq(seq, PacketType::Write) + data@
                &&& plan.wait_for_ack == (should_flush || seq == 0xffff)
                &&& plan.exit_on_lost == false
                &&& plan.delay_micros == delay
                &&& final(self).sent_packets_count == old(self).sent_packets_count + 1
                &&& final(self).last_transmitted@.dom() == old(self).last_transmitted@.dom().insert(seq)
                &&& final(self).last_transmitted@[seq]@ == plan.datagram@
                &&& forall|k: u16|
                    k != seq && old(self).last_transmitted@.contains_key(k) ==> final(self).last_transmitted@[k] == old(self).last_transmitted@[k]
                &&& final(self).received_packets_count == old(self).received_packets_count
                &&& final(self).delivered == old(self).delivered
            },
    {
        self.emit_frame(data, PacketType::Write, should_flush, false, delay)
    }

    /// Stamps the end-of-stream frame with the next sequence number.  The
    /// caller sends it, then waits for its acknowledgment but may give the
    /// session up for lost.
    pub fn end(&mut self) -> (r: WritePlan)
        requires
            old(self).sent_packets_count < u64::MAX,
        ensures
            ({
                let seq = seq16(old(self).sent_packets_count);
                &&& r.datagram@ == header_seq(seq, PacketType::EndSession)
                &&& r.wait_for_ack == true
                &&& r.exit_on_lost == true
                &&& r.delay_micros == 3000
                &&& final(self).sent_packets_count == old(self).sent_packets_count + 1
                &&& final(self).last_transmitted@.dom() == old(self).last_transmitted@.dom().insert(seq)
                &&& final(self).last_transmitted@[seq]@ == r.datagram@
                &&& forall|k: u16|
                    k != seq && old(self).last_transmitted@.contains_key(k) ==> final(self).last_transmitted@[k] == old(self).last_transmitted@[k]
                &&& final(self).received_packets_count == old(self).received_packets_count
                &&& final(self).delivered == old(self).delivered
            }),
    {
        let empty: [u8; 0] = [];
        let plan = match self.emit_frame(&empty, PacketType::EndSession, true, true, 3000) {
            Ok(plan) => plan,
            Err(_) => {
                proof {
                    assert(false);
                }
                unreached()
            },
        };
        proof {
            assert(plan.datagram@ =~= header_seq(
                seq16(old(self).sent_packets_count),
                PacketType::EndSession,
            ));
        }
        plan
    }

    fn emit_frame(
        &mut self,
        data: &[u8],
        kind: PacketType,
        should_flush: bool,
        exit_on_lost: bool,
        delay: u64,
    ) -> (r: Result<WritePlan>)
        requires
            old(self).sent_packets_count < u64::MAX,
        ensures
            r is Err <==> data@.len() > MAX_DATA_SIZE,
            r is Err ==> (r matches Err(NudgeError::DataPacketLimitExceeded(n)) && n == data@.len()
                && *final(self) == *old(self)),
            r matches Ok(plan) ==> {
                let seq = seq16(old(self).sent_packets_count);
                &&& plan.datagram@ == header_seq(seq, kind) + data@
                &&& plan.wait_for_ack == (should_flush || seq == 0xffff)
                &&& plan.exit_on_lost == exit_on_lost
                &&& plan.delay_micros == delay
                &&& final(self).sent_packets_count == old(self).sent_packets_count + 1
                &&& final(self).last_transmitted@.dom() == old(self).last_transmitted@.dom().insert(seq)
                &&& final(self).last_transmitted@[seq]@ == plan.datagram@
                &&& forall|k: u16|
                    k != seq && old(self).last_transmitted@.contains_key(k) ==> final(self).last_transmitted@[k] == old(self).last_transmitted@[k]
                &&& final(self).received_packets_count == old(self).received_packets_count
                &&& final(self).delivered == old(self).delivered
            },
    {
        if data.len() > MAX_DATA_SIZE {
            return Err(NudgeError::DataPacketLimitExceeded(data.len()));
        }
        let seq = (self.sent_packets_count % 0x10000) as u16;
        let datagram = encode_packet(seq, kind, data);
        let stored = datagram.clone();
        proof {
            assert(stored@ =~= datagram@);
        }
        self.last_transmitted.insert(seq, stored);
        self.sent_packets_count = self.sent_packets_count + 1;
        let wait_for_ack = should_flush || seq == 0xffff;
        Ok(WritePlan { datagram, wait_for_ack, exit_on_lost, delay_micros: delay })
    }

    /// Advances the acknowledgment wait by one observation, mirroring the
    /// sender's loss handling: an acknowledgment retires its frame, and the
    /// awaited one also clears everything earlier in order; a resend
    /// request replays the stored frame; silence beyond five seconds ends a
    /// best-effort wait, and beyond ten the latest frame is probed again or
    /// the wait closes once nothing is left in flight.
    pub fn wait_step(
        &mut self,
        target: u16,
        exit_on_lost: bool,
        event: &AckWaitEvent,
        elapsed_ms: u64,
    ) -> (r: AckWaitStep)
        ensures
            final(self).sent_packets_count == old(self).sent_packets_count,
            final(self).received_packets_count == old(self).received_packets_count,
            final(self).delivered == old(self).delivered,
            event matches AckWaitEvent::Datagram(buf) ==> {
                &&& buf@.len() != 3 ==> (r is Continue && final(self).last_transmitted@ == old(
                    self,
                ).last_transmitted@)
                &&& buf@.len() == 3 && buf@[2] == KIND_ACK ==> {
                    let s = seq_of_bytes(buf@[0], buf@[1]);
                    if s == target {
                        r is Done && final(self).last_transmitted@ == Map::<u16, Vec<u8>>::empty()
                    } else {
                        r is Continue && final(self).last_transmitted@ == old(
                            self,
                        ).last_transmitted@.remove(s)
                    }
                }
                &&& buf@.len() == 3 && buf@[2] == KIND_RESEND ==> {
                    let s = seq_of_bytes(buf@[0], buf@[1]);
                    &&& final(self).last_transmitted@ == old(self).last_transmitted@
                    &&& old(self).last_transmitted@.contains_key(s) ==> (r matches AckWaitStep::Resend(
                        d,
                    ) && d@ == old(self).last_transmitted@[s]@)
                    &&& !old(self).last_transmitted@.contains_key(s) ==> r is Continue
                }
                &&& buf@.len() == 3 && buf@[2] != KIND_ACK && buf@[2] != KIND_RESEND ==> (
                r is Continue && final(self).last_transmitted@ == old(self).last_transmitted@)
            },
            event is TimedOut ==> {
                &&& final(self).last_transmitted@ == old(self).last_transmitted@
                &&& elapsed_ms > 5000 && exit_on_lost ==> r is GiveUp
                &&& !(elapsed_ms > 5000 && exit_on_lost) && elapsed_ms > 10000 && old(self).last_transmitted@.contains_key(target) ==> (r matches AckWaitStep::Resend(d)
                    && d@ == old(self).last_transmitted@[target]@)
                &&& !(elapsed_ms > 5000 && exit_on_lost) && elapsed_ms > 10000 && !old(self).last_transmitted@.contains_key(target) ==> r is Done
                &&& elapsed_ms <= 5000 || (!exit_on_lost && elapsed_ms <= 10000) ==> r is Continue
            },
    {
        match event {
            AckWaitEvent::Datagram(buf) => {
                if buf.len() != 3 {
                    return AckWaitStep::Continue;
                }
                let s = parse_seq(buf[0], buf[1]);
                let kind = buf[2];
                if kind == KIND_ACK {
                    self.last_transmitted.remove(&s);
                    if s == target {
                        self.last_transmitted.clear();
                        AckWaitStep::Done
                    } else {
                        AckWaitStep::Continue
                    }
                } else if kind == KIND_RESEND {
                    match self.last_transmitted.get(&s) {
                        Option::Some(d) => {
                            let copy = d.clone();
                            proof {
                                assert(copy@ =~= old(self).last_transmitted@[s]@);
                            }
                            AckWaitStep::Resend(copy)
                        },
                        Option::None => AckWaitStep::Continue,
                    }
                } else {
                    AckWaitStep::Continue
                }
            },
            AckWaitEvent::TimedOut => {
                if elapsed_ms > 5000 && exit_on_lost {
                    AckWaitStep::GiveUp
                } else if elapsed_ms > 10000 {
                    match self.last_transmitted.get(&target) {
                        Option::Some(d) => {
                            let copy = d.clone();
                            proof {
                                assert(copy@ =~= old(self).last_transmitted@[target]@);
                            }
                            AckWaitStep::Resend(copy)
                        },
                        Option::None => AckWaitStep::Done,
                    }
                } else {
                    AckWaitStep::Continue
                }
            },
        }
    }

    /// The receiver as the laws below see it: how many in-order frames it
    /// has accepted, and every payload byte it has delivered.
    pub open spec fn recv_model(&self) -> RecvModel {
        RecvModel { count: self.received_packets_count, delivered: self.delivered@ }
    }

    /// The read-side size gate: a receive buffer over the payload cap is
    /// refused before any datagram is touched.
    pub fn check_read_buffer(buffer_len: usize) -> (r: Result<()>)
        ensures
            r is Err <==> buffer_len > MAX_DATA_SIZE,
            r is Err ==> (r matches Err(NudgeError::BufferSizeLimitExceeded(n)) && n == buffer_len),
    {
        if buffer_len > MAX_DATA_SIZE {
            Err(NudgeError::BufferSizeLimitExceeded(buffer_len))
        } else {
            Ok(())
        }
    }

    /// Takes one inbound frame on the receiving side.  A duplicate (at or
    /// below the expected sequence) is re-acknowledged; exactly the expected
    /// sequence is accepted, delivering its payload and advancing the
    /// counter; a frame from the future provokes a resend request naming
    /// the expected sequence; an end-of-stream frame stops the read.  Short
    /// datagrams are ignored.
    pub fn handle_packet(&mut self, datagram: &Vec<u8>) -> (r: ReadStep)
        requires
            old(self).received_packets_count < u64::MAX,
        ensures
            final(self).sent_packets_count == old(self).sent_packets_count,
            final(self).last_transmitted@ == old(self).last_transmitted@,
            final(self).recv_model() == recv_step(old(self).recv_model(), datagram@),
            datagram@.len() < 3 ==> (r.reply is None && r.payload is None && !r.finished),
            datagram@.len() >= 3 ==> {
                let s = seq_of_bytes(datagram@[0], datagram@[1]);
                let cur = seq16(old(self).received_packets_count);
                &&& s <= cur ==> (r.reply matches Some(a) && a@ == seq![
                    datagram@[0],
                    datagram@[1],
                    KIND_ACK,
                ])
                &&& s > cur ==> (r.reply matches Some(a) && a@ == header_seq(
                    cur,
                    PacketType::ResendRequest,
                ))
                &&& s == cur ==> (r.payload matches Some(p) && p@ == datagram@.skip(3))
                &&& s != cur ==> r.payload is None
                &&& r.finished == (s == cur || datagram@[2] == KIND_END)
            },
    {
        if datagram.len() < 3 {
            return ReadStep { reply: Option::None, payload: Option::None, finished: false };
        }
        let s = parse_seq(datagram[0], datagram[1]);
        let cur = (self.received_packets_count % 0x10000) as u16;
        let mut reply: Option<Vec<u8>> = Option::None;
        let mut payload: Option<Vec<u8>> = Option::None;
        let mut finished = false;
        if s <= cur {
            let mut ack: Vec<u8> = Vec::new();
            ack.push(datagram[0]);
            ack.push(datagram[1]);
            ack.push(KIND_ACK);
            proof {
                assert(ack@ =~= seq![datagram@[0], datagram@[1], KIND_ACK]);
            }
            reply = Option::Some(ack);
        }
        if s == cur {
            let body = vstd::slice::slice_to_vec(
                vstd::slice::slice_subrange(datagram.as_slice(), 3, datagram.len()),
            );
            proof {
                assert(body@ =~= datagram@.skip(3));
            }
            self.received_packets_count = self.received_packets_count + 1;
            self.delivered = Ghost(self.delivered@ + body@);
            payload = Option::Some(body);
            finished = true;
        } else if s > cur {
            let request = encode_packet(cur, PacketType::ResendRequest, &[]);
            proof {
                assert(request@ =~= header_seq(cur, PacketType::ResendRequest));
            }
            reply = Option::Some(request);
        }
        if datagram[2] == KIND_END {
            finished = true;
        }
        ReadStep { reply, payload, finished }
    }
}

/// What the read loop must do after one inbound frame.
pub struct ReadStep {
    /// An acknowledgment or resend request to put on the wire, if any.
    pub reply: Option<Vec<u8>>,
    /// The payload delivered to the caller, where the frame was in order.
    pub payload: Option<Vec<u8>>,
    /// Whether the read loop is over: an in-order delivery or end-of-stream.
    pub finished: bool,
}

/// Abstract receiver state: the delivery counter and the bytes handed out.
pub ghost struct RecvModel {
    pub count: u64,
    pub delivered: Seq<u8>,
}

/// One abstract receiver transition: a frame whose sequence matches the low
/// 16 bits of the counter is accepted, appending its payload; every other
/// frame leaves the state alone.
pub open spec fn recv_step(m: RecvModel, dg: Seq<u8>) -> RecvModel {
    if dg.len() >= 3 && seq_of_bytes(dg[0], dg[1]) == seq16(m.count) {
        RecvModel { count: (m.count + 1) as u64, delivered: m.delivered + dg.skip(3) }
    } else {
        m
    }
}

/// The abstract receiver run over a whole inbound trace, in arrival order.
pub open spec fn recv_run(m: RecvModel, dgs: Seq<Seq<u8>>) -> RecvModel
    decreases dgs.len(),
{
    if dgs.len() == 0 {
        m
    } else {
        recv_run(recv_step(m, dgs.first()), dgs.drop_first())
    }
}

/// The source stream: all chunks laid end to end.
pub open spec fn concat_chunks(chunks: Seq<Seq<u8>>) -> Seq<u8>
    decreases chunks.len(),
{
    if chunks.len() == 0 {
        Seq::empty()
    } else {
        concat_chunks(chunks.drop_last()) + chunks.last()
    }
}

/// A frame a sender of `chunks` could have put on the wire: short noise, a
/// WRITE frame carrying the chunk its sequence names, or the empty frame
/// one past the last chunk (the end-of-stream marker).
pub open spec fn chunk_frame_ok(chunks: Seq<Seq<u8>>, dg: Seq<u8>) -> bool {
    dg.len() < 3 || {
        let s = seq_of_bytes(dg[0], dg[1]) as int;
        &&& s <= chunks.len()
        &&& s < chunks.len() ==> dg.skip(3) == chunks[s]
        &&& s == chunks.len() ==> dg.skip(3) == Seq::<u8>::empty()
    }
}

/// Every frame of the trace is one the sender of `chunks` could have sent;
/// drops, duplicates and reorderings are all allowed.
pub open spec fn wire_ok(chunks: Seq<Seq<u8>>, dgs: Seq<Seq<u8>>) -> bool {
    forall|i: int| 0 <= i < dgs.len() ==> chunk_frame_ok(chunks, #[trigger] dgs[i])
}

/// What integrity means mid-transfer: the receiver has delivered exactly
/// the chunks it has counted, laid end to end.
pub open spec fn delivery_inv(chunks: Seq<Seq<u8>>, m: RecvModel) -> bool {
    &&& m.count <= chunks.len() + 1
    &&& m.delivered == concat_chunks(
        chunks.take(vstd::math::min(m.count as int, chunks.len() as int)),
    )
}

/// In-order delivery: the receiver's counter moves only when the frame
/// carries exactly the next expected sequence number, and then exactly that
/// frame's payload is appended to the delivered bytes.
pub proof fn lemma_in_order_delivery(m: RecvModel, dg: Seq<u8>)
    requires
        m.count < u64::MAX,
    ensures
        recv_step(m, dg) != m ==> (dg.len() >= 3 && seq_of_bytes(dg[0], dg[1]) == seq16(m.count)
            && recv_step(m, dg).count == m.count + 1 && recv_step(m, dg).delivered == m.delivered
            + dg.skip(3)),
        recv_step(m, dg).count != m.count ==> recv_step(m, dg) != m,
{
}

proof fn lemma_concat_take_succ(chunks: Seq<Seq<u8>>, n: int)
    requires
        0 <= n < chunks.len(),
    ensures
        concat_chunks(chunks.take(n + 1)) == concat_chunks(chunks.take(n)) + chunks[n],
{
    assert(chunks.take(n + 1).drop_last() =~= chunks.take(n));
    assert(chunks.take(n + 1).last() == chunks[n]);
}

proof fn lemma_step_preserves_integrity(chunks: Seq<Seq<u8>>, m: RecvModel, dg: Seq<u8>)
    requires
        chunks.len() < 0xffff,
        chunk_frame_ok(chunks, dg),
        delivery_inv(chunks, m),
    ensures
        delivery_inv(chunks, recv_step(m, dg)),
{
    if dg.len() >= 3 && seq_of_bytes(dg[0], dg[1]) == seq16(m.count) {
        let s = seq_of_bytes(dg[0], dg[1]) as int;
        assert(m.count < 0x10000);
        assert(seq16(m.count) == m.count);
        assert(s == m.count);
        if m.count < chunks.len() {
            lemma_concat_take_succ(chunks, m.count as int);
        } else {
            assert(s == chunks.len());
            assert(dg.skip(3) =~= Seq::<u8>::empty());
            assert(m.delivered + dg.skip(3) =~= m.delivered);
        }
    }
}

proof fn lemma_run_preserves_integrity(chunks: Seq<Seq<u8>>, m: RecvModel, dgs: Seq<Seq<u8>>)
    requires
        chunks.len() < 0xffff,
        wire_ok(chunks, dgs),
        delivery_inv(chunks, m),
    ensures
        delivery_inv(chunks, recv_run(m, dgs)),
    decreases dgs.len(),
{
    if dgs.len() > 0 {
        assert(chunk_frame_ok(chunks, dgs[0]));
        lemma_step_preserves_integrity(chunks, m, dgs.first());
        assert forall|i: int| 0 <= i < dgs.drop_first().len() implies chunk_frame_ok(
            chunks,
            #[trigger] dgs.drop_first()[i],
        ) by {
            assert(dgs.drop_first()[i] == dgs[i + 1]);
        }
        lemma_run_preserves_integrity(chunks, recv_step(m, dgs.first()), dgs.drop_first());
    }
}

/// While a frame is missing, the receiver is frozen: a run of frames none
/// of which carries the expected sequence number delivers nothing and
/// moves nothing.
pub proof fn lemma_gap_freezes_receiver(m: RecvModel, dgs: Seq<Seq<u8>>)
    requires
        forall|i: int|
            0 <= i < dgs.len() ==> !((#[trigger] dgs[i]).len() >= 3 && seq_of_bytes(
                dgs[i][0],
                dgs[i][1],
            ) == seq16(m.count)),
    ensures
        recv_run(m, dgs) == m,
    decreases dgs.len(),
{
    if dgs.len() > 0 {
        assert(dgs[0] == dgs.first());
        assert(recv_step(m, dgs.first()) == m);
        assert forall|i: int|
            0 <= i < dgs.drop_first().len() implies !((#[trigger] dgs.drop_first()[i]).len() >= 3
            && seq_of_bytes(dgs.drop_first()[i][0], dgs.drop_first()[i][1]) == seq16(
            m.count,
        )) by {
            assert(dgs.drop_first()[i] == dgs[i + 1]);
        }
        lemma_gap_freezes_receiver(m, dgs.drop_first());
    }
}

/// A dropped WRITE frame is recovered: however many frames arrive in the
/// meantime without the missing sequence number, a later copy of the
/// dropped frame is accepted exactly as the lost one would have been —
/// the counter advances once and precisely the dropped payload is
/// delivered.
pub proof fn lemma_drop_recovered(
    m: RecvModel,
    dropped: Seq<u8>,
    interim: Seq<Seq<u8>>,
    copy: Seq<u8>,
)
    requires
        m.count < u64::MAX,
        dropped.len() >= 3,
        seq_of_bytes(dropped[0], dropped[1]) == seq16(m.count),
        copy == dropped,
        forall|i: int|
            0 <= i < interim.len() ==> !((#[trigger] interim[i]).len() >= 3 && seq_of_bytes(
                interim[i][0],
                interim[i][1],
            ) == seq16(m.count)),
    ensures
        recv_step(recv_run(m, interim), copy).count == m.count + 1,
        recv_step(recv_run(m, interim), copy).delivered == m.delivered + dropped.skip(3),
{
    lemma_gap_freezes_receiver(m, interim);
}

/// A WRITE frame as [`ReliableUdpSocket::write_and_flush`] emits it — the
/// header for sequence `i`, then chunk `i` — is a frame the integrity law
/// admits.
pub proof fn lemma_write_frame_ok(chunks: Seq<Seq<u8>>, i: int, frame: Seq<u8>)
    requires
        chunks.len() < 0xffff,
        0 <= i < chunks.len(),
        frame == header_seq(seq16(i as u64), PacketType::Write) + chunks[i],
    ensures
        chunk_frame_ok(chunks, frame),
{
    lemma_header_round_trip(seq16(i as u64), PacketType::Write);
    assert(frame[0] == header_seq(seq16(i as u64), PacketType::Write)[0]);
    assert(frame[1] == header_seq(seq16(i as u64), PacketType::Write)[1]);
    assert(seq_of_bytes(frame[0], frame[1]) == seq16(i as u64));
    assert(seq16(i as u64) == i);
    assert(frame.skip(3) =~= chunks[i]);
}

/// The end-of-stream frame as [`ReliableUdpSocket::end`] emits it — the
/// bare header for the sequence one past the last chunk — is a frame the
/// integrity law admits.
pub proof fn lemma_end_frame_ok(chunks: Seq<Seq<u8>>, frame: Seq<u8>)
    requires
        chunks.len() < 0xffff,
        frame == header_seq(seq16(chunks.len() as u64), PacketType::EndSession),
    ensures
        chunk_frame_ok(chunks, frame),
{
    lemma_header_round_trip(seq16(chunks.len() as u64), PacketType::EndSession);
    assert(seq_of_bytes(frame[0], frame[1]) == seq16(chunks.len() as u64));
    assert(seq16(chunks.len() as u64) == chunks.len());
    assert(frame.skip(3) =~= Seq::<u8>::empty());
}

/// Sequence integrity: run a fresh receiver over any trace of frames a
/// sender of `chunks` could have produced — with drops, duplicates and
/// reordering — and the delivered bytes are exactly the counted prefix of
/// the chunks laid end to end; once the counter covers every chunk, the
/// delivered bytes equal the whole source, byte for byte.
pub proof fn lemma_transfer_integrity(chunks: Seq<Seq<u8>>, dgs: Seq<Seq<u8>>)
    requires
        chunks.len() < 0xffff,
        wire_ok(chunks, dgs),
    ensures
        ({
            let m = recv_run(RecvModel { count: 0, delivered: Seq::empty() }, dgs);
            &&& m.delivered == concat_chunks(
                chunks.take(vstd::math::min(m.count as int, chunks.len() as int)),
            )
            &&& m.count >= chunks.len() ==> m.delivered == concat_chunks(chunks)
        }),
{
    let m0 = RecvModel { count: 0, delivered: Seq::empty() };
    assert(chunks.take(0) =~= Seq::<Seq<u8>>::empty());
    assert(delivery_inv(chunks, m0));
    lemma_run_preserves_integrity(chunks, m0, dgs);
    let m = recv_run(m0, dgs);
    if m.count >= chunks.len() {
        assert(chunks.take(chunks.len() as int) =~= chunks);
    }
}

} // verus!
