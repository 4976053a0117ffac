use quic_core::contexts::{PacketBuilder, StreamId, Timestamp};
use quic_core::flow_control::{
    IncomingConnectionFlowController, OutgoingConnectionFlowController,
};
use quic_core::frame::{Frame, MaxData, MaxStreamData, ResetStream, StreamFrame};
use quic_core::once_sync::DeliveryState;
use quic_core::packet_number::{PacketNumber, PacketNumberSpace};
use quic_core::receive::{ReadPoll, StreamError, StreamEvents};
use quic_core::send::ByteState;
use quic_core::stream::{StreamConfig, StreamImpl};

const STREAM: StreamId = StreamId { id: 1 };

fn pn(value: u64) -> PacketNumber {
    PacketNumber::new(PacketNumberSpace::ApplicationData, value).unwrap()
}

fn config(stream_id: StreamId, receive_window: u64) -> StreamConfig {
    StreamConfig {
        stream_id,
        initial_receive_window: receive_window,
        desired_flow_control_window: receive_window,
        initial_send_window: 8 * 1024,
        max_send_buffer_size: 16 * 1024,
    }
}

fn setup(receive_window: u64, connection_window: u64) -> (StreamImpl, IncomingConnectionFlowController) {
    let stream = StreamImpl::new(config(STREAM, receive_window));
    let conn = IncomingConnectionFlowController::new(connection_window, connection_window);
    (stream, conn)
}

fn frame(offset: u64, data: Vec<u8>, is_fin: bool) -> StreamFrame {
    StreamFrame { stream_id: STREAM.id, offset, data, is_fin, is_last_frame: false }
}

fn pattern(offset: u64, len: usize) -> Vec<u8> {
    (0..len as u64).map(|i| ((offset + i) % 251) as u8).collect()
}

#[test]
fn full_window_is_read_then_pending_then_end_of_stream() {
    let (mut stream, mut conn) = setup(4096, 100 * 1024);
    let mut events = StreamEvents::new();
    let data = pattern(0, 4096);
    assert!(stream.on_data(&frame(0, data.clone(), false), &mut conn, &mut events).is_ok());
    assert!(events.read_wakeup);
    assert_eq!(stream.poll_pop(&mut conn), ReadPoll::Data(data));
    assert_eq!(stream.poll_pop(&mut conn), ReadPoll::Pending);
    let mut events = StreamEvents::new();
    assert!(stream.on_data(&frame(4096, vec![], true), &mut conn, &mut events).is_ok());
    assert!(events.read_wakeup);
    assert_eq!(stream.poll_pop(&mut conn), ReadPoll::EndOfStream);
    assert_eq!(stream.poll_pop(&mut conn), ReadPoll::EndOfStream);
}

#[test]
fn data_past_the_window_is_refused_without_change() {
    let (mut stream, mut conn) = setup(4096, 100 * 1024);
    let mut events = StreamEvents::new();
    assert!(stream.on_data(&frame(0, pattern(0, 10), false), &mut conn, &mut events).is_ok());
    let held_before = stream.receive.buffer.clone();
    let acquired_before = conn.acquired;
    let mut events = StreamEvents::new();
    assert_eq!(
        stream.on_data(&frame(4090, pattern(4090, 7), false), &mut conn, &mut events),
        Err(StreamError::FlowControlError)
    );
    assert_eq!(stream.receive.buffer, held_before);
    assert_eq!(stream.receive.highest_offset, 10);
    assert_eq!(conn.acquired, acquired_before);
    assert!(!events.read_wakeup);
    // exactly up to the limit is fine
    assert!(stream.on_data(&frame(4090, pattern(4090, 6), false), &mut conn, &mut events).is_ok());
}

#[test]
fn connection_window_is_shared() {
    let (mut a, mut conn) = setup(4096, 100);
    let mut b = StreamImpl::new(config(StreamId { id: 5 }, 4096));
    let mut events = StreamEvents::new();
    assert!(a.on_data(&frame(0, pattern(0, 60), false), &mut conn, &mut events).is_ok());
    assert_eq!(
        b.on_data(&frame(0, pattern(0, 41), false), &mut conn, &mut events),
        Err(StreamError::FlowControlError)
    );
    assert!(b.on_data(&frame(0, pattern(0, 40), false), &mut conn, &mut events).is_ok());
    assert_eq!(conn.available_window(), 0);
}

#[test]
fn overlapping_data_is_charged_once() {
    let (mut stream, mut conn) = setup(4096, 4096);
    let mut events = StreamEvents::new();
    assert!(stream.on_data(&frame(0, pattern(0, 100), false), &mut conn, &mut events).is_ok());
    assert!(stream.on_data(&frame(50, pattern(50, 100), false), &mut conn, &mut events).is_ok());
    assert!(stream.on_data(&frame(0, pattern(0, 150), false), &mut conn, &mut events).is_ok());
    assert_eq!(conn.acquired, 150);
    assert_eq!(stream.poll_pop(&mut conn), ReadPoll::Data(pattern(0, 150)));
}

/// A small deterministic generator for shuffled deliveries.
struct Lcg(u64);

impl Lcg {
    fn next(&mut self, bound: u64) -> u64 {
        self.0 = self.0.wrapping_mul(6364136223846793005).wrapping_add(1442695040888963407);
        (self.0 >> 33) % bound
    }
}

#[test]
fn shuffled_overlapping_deliveries_reassemble_the_union() {
    for seed in 1..40u64 {
        let mut rng = Lcg(seed);
        let total = 600u64;
        let (mut stream, mut conn) = setup(4096, 4096);
        let mut covered = vec![false; total as usize];
        let mut read = Vec::new();
        let mut highest = 0u64;
        for _ in 0..60 {
            let offset = rng.next(total);
            let len = 1 + rng.next(80).min(total - offset - 1);
            let mut events = StreamEvents::new();
            assert!(stream.on_data(&frame(offset, pattern(offset, len as usize), false), &mut conn, &mut events).is_ok());
            for i in offset..offset + len {
                covered[i as usize] = true;
            }
            highest = highest.max(offset + len);
            assert_eq!(conn.acquired, highest);
            if rng.next(3) == 0 {
                if let ReadPoll::Data(d) = stream.poll_pop(&mut conn) {
                    read.extend(d);
                }
            }
        }
        loop {
            match stream.poll_pop(&mut conn) {
                ReadPoll::Data(d) => read.extend(d),
                _ => break,
            }
        }
        let prefix = covered.iter().take_while(|c| **c).count();
        assert_eq!(read, pattern(0, prefix));
        // what is still held is exactly the covered bytes past the prefix
        for (i, c) in covered.iter().enumerate().skip(prefix) {
            let idx = i - prefix;
            assert_eq!(stream.receive.filled[idx], *c);
            if *c {
                assert_eq!(stream.receive.buffer[idx], pattern(i as u64, 1)[0]);
            }
        }
    }
}

#[test]
fn final_size_violations_are_refused() {
    let (mut stream, mut conn) = setup(4096, 4096);
    let mut events = StreamEvents::new();
    assert!(stream.on_data(&frame(0, pattern(0, 10), true), &mut conn, &mut events).is_ok());
    assert_eq!(
        stream.on_data(&frame(5, pattern(5, 10), false), &mut conn, &mut events),
        Err(StreamError::FinalSizeError)
    );
    assert_eq!(
        stream.on_data(&frame(0, pattern(0, 9), true), &mut conn, &mut events),
        Err(StreamError::FinalSizeError)
    );
    assert!(stream.on_data(&frame(0, pattern(0, 10), true), &mut conn, &mut events).is_ok());
    let (mut other, mut conn2) = setup(4096, 4096);
    assert!(other.on_data(&frame(0, pattern(0, 10), false), &mut conn2, &mut events).is_ok());
    assert_eq!(
        other.on_data(&frame(0, pattern(0, 5), true), &mut conn2, &mut events),
        Err(StreamError::FinalSizeError)
    );
}

#[test]
fn peer_reset_is_reported_to_readers_and_refuses_data() {
    let (mut stream, mut conn) = setup(4096, 4096);
    let mut events = StreamEvents::new();
    assert!(stream.on_data(&frame(0, pattern(0, 10), false), &mut conn, &mut events).is_ok());
    let mut events = StreamEvents::new();
    assert_eq!(stream.on_reset(42, 20, &mut events), Ok(()));
    assert!(events.read_wakeup);
    assert_eq!(stream.on_reset(43, 20, &mut events), Ok(()));
    assert_eq!(stream.poll_pop(&mut conn), ReadPoll::Reset(42));
    assert_eq!(
        stream.on_data(&frame(10, pattern(10, 1), false), &mut conn, &mut events),
        Err(StreamError::ResetError(42))
    );
}

#[test]
fn out_of_order_data_waits_for_the_gap() {
    let (mut stream, mut conn) = setup(4096, 4096);
    let mut events = StreamEvents::new();
    assert!(stream.on_data(&frame(10, pattern(10, 10), false), &mut conn, &mut events).is_ok());
    assert!(!events.read_wakeup);
    assert_eq!(stream.poll_pop(&mut conn), ReadPoll::Pending);
    assert!(stream.on_data(&frame(0, pattern(0, 10), false), &mut conn, &mut events).is_ok());
    assert!(events.read_wakeup);
    assert_eq!(stream.poll_pop(&mut conn), ReadPoll::Data(pattern(0, 20)));
}

#[test]
fn reset_is_resent_after_loss_and_settled_by_ack() {
    let (mut stream, _conn) = setup(4096, 4096);
    let mut tx = OutgoingConnectionFlowController::new(100 * 1024);
    stream.reset(7);
    let mut events = StreamEvents::new();
    let mut first = PacketBuilder::new(1, Timestamp { micros: 10 }, 1200);
    assert!(stream.on_transmit(&mut tx, &mut first).is_ok());
    let expected = vec![Frame::ResetStream(ResetStream { stream_id: 1, application_error_code: 7, final_size: 0 })];
    assert_eq!(first.frames, expected);
    assert!(stream.interests(&tx).frame_exchange.delivery_notifications);
    stream.on_packet_loss(&pn(1), &mut events);
    assert!(stream.interests(&tx).frame_exchange.transmission);
    let mut second = PacketBuilder::new(2, Timestamp { micros: 20 }, 1200);
    assert!(stream.on_transmit(&mut tx, &mut second).is_ok());
    assert_eq!(second.frames, expected);
    stream.on_packet_ack(&pn(2), &mut events);
    assert!(stream.is_reset_delivered());
    assert_eq!(
        stream.reset_sync.is_delivered(),
        true
    );
    let mut third = PacketBuilder::new(3, Timestamp { micros: 30 }, 1200);
    assert!(stream.on_transmit(&mut tx, &mut third).is_ok());
    assert!(third.frames.is_empty());
    assert!(!stream.interests(&tx).frame_exchange.transmission);
}

#[test]
fn stream_finalizes_when_both_sides_are_done() {
    let (mut stream, mut conn) = setup(4096, 4096);
    let mut tx = OutgoingConnectionFlowController::new(100 * 1024);
    let mut events = StreamEvents::new();
    assert!(stream.on_data(&frame(0, vec![], true), &mut conn, &mut events).is_ok());
    assert!(!stream.interests(&tx).finalization);
    stream.reset(1);
    let mut p = PacketBuilder::new(4, Timestamp { micros: 0 }, 1200);
    stream.on_transmit(&mut tx, &mut p).unwrap();
    stream.on_packet_ack(&pn(4), &mut events);
    assert!(stream.interests(&tx).finalization);
}

#[test]
fn reading_raises_and_announces_the_connection_window() {
    let mut conn = IncomingConnectionFlowController::new(100, 100);
    let mut stream = StreamImpl::new(config(STREAM, 4096));
    let mut events = StreamEvents::new();
    assert!(stream.on_data(&frame(0, pattern(0, 60), false), &mut conn, &mut events).is_ok());
    assert_eq!(conn.announcement, DeliveryState::NotRequested);
    assert_eq!(stream.poll_pop(&mut conn), ReadPoll::Data(pattern(0, 60)));
    // 40 bytes left of the window is below half of the desired 100
    assert_eq!(conn.window_limit, 160);
    assert_eq!(conn.announcement, DeliveryState::Requested(160));
    let mut p = PacketBuilder::new(9, Timestamp { micros: 0 }, 1200);
    assert!(conn.on_transmit(&mut p).is_ok());
    assert_eq!(p.frames, vec![Frame::MaxData(MaxData { maximum_data: 160 })]);
    conn.on_packet_loss(&pn(9));
    assert_eq!(conn.announcement, DeliveryState::Requested(160));
    let mut q = PacketBuilder::new(10, Timestamp { micros: 0 }, 1200);
    assert!(conn.on_transmit(&mut q).is_ok());
    conn.on_packet_ack(&pn(10));
    assert_eq!(conn.announcement, DeliveryState::Delivered(160));
}

#[test]
fn small_reads_do_not_raise_the_window() {
    let mut conn = IncomingConnectionFlowController::new(100, 100);
    assert!(conn.acquire_window(30).is_ok());
    conn.release_window(30);
    assert_eq!(conn.window_limit, 100);
    assert_eq!(conn.announcement, DeliveryState::NotRequested);
    assert!(conn.acquire_window(71).is_err());
    assert_eq!(conn.acquired, 30);
}

#[test]
fn outgoing_credit_is_granted_first_come() {
    let mut conn = OutgoingConnectionFlowController::new(100);
    assert_eq!(conn.acquire(70), 70);
    assert_eq!(conn.acquire(70), 30);
    assert_eq!(conn.available_credit(), 0);
    conn.on_max_data(50);
    assert_eq!(conn.available_credit(), 0);
    conn.on_max_data(150);
    assert_eq!(conn.available_credit(), 50);
}

#[test]
fn frame_sizes() {
    let reset = Frame::ResetStream(ResetStream { stream_id: 1, application_error_code: 7, final_size: 0x4000 });
    assert_eq!(reset.encoding_size(), Some(1 + 1 + 1 + 4));
    let stream = Frame::Stream(StreamFrame { stream_id: 64, offset: 0, data: vec![0; 100], is_fin: false, is_last_frame: false });
    assert_eq!(stream.encoding_size(), Some(1 + 2 + 1 + 2 + 100));
    let last = Frame::Stream(StreamFrame { stream_id: 64, offset: 0, data: vec![0; 100], is_fin: false, is_last_frame: true });
    assert_eq!(last.encoding_size(), Some(1 + 2 + 1 + 100));
    let max = Frame::MaxData(MaxData { maximum_data: 1 << 40 });
    assert_eq!(max.encoding_size(), Some(1 + 8));
}

#[test]
fn data_is_sent_within_packet_room_and_credit() {
    let (mut stream, _conn) = setup(4096, 4096);
    let mut tx = OutgoingConnectionFlowController::new(100 * 1024);
    assert!(stream.write(&pattern(0, 3000)));
    assert!(stream.interests(&tx).frame_exchange.transmission);
    // room of 1200 bytes: 1 type byte, 1 for the id, 1 for offset 0, 2 for the length
    let mut p = PacketBuilder::new(1, Timestamp { micros: 0 }, 1200);
    assert!(stream.on_transmit(&mut tx, &mut p).is_ok());
    match &p.frames[..] {
        [Frame::Stream(f)] => {
            assert_eq!(f.offset, 0);
            assert_eq!(f.data, pattern(0, 1195));
            assert!(!f.is_fin);
        }
        other => panic!("unexpected frames {:?}", other),
    }
    assert_eq!(stream.send.sent_offset, 1195);
    assert_eq!(tx.acquired, 1195);
    let mut q = PacketBuilder::new(2, Timestamp { micros: 0 }, 1200);
    assert!(stream.on_transmit(&mut tx, &mut q).is_ok());
    match &q.frames[..] {
        [Frame::Stream(f)] => {
            assert_eq!(f.offset, 1195);
            assert_eq!(f.data, pattern(1195, 1194));
        }
        other => panic!("unexpected frames {:?}", other),
    }
    assert!(stream.interests(&tx).frame_exchange.delivery_notifications);
}

#[test]
fn lost_bytes_are_resent_first_without_new_credit() {
    let (mut stream, _conn) = setup(4096, 4096);
    let mut tx = OutgoingConnectionFlowController::new(100 * 1024);
    assert!(stream.write(&pattern(0, 100)));
    let mut p = PacketBuilder::new(1, Timestamp { micros: 0 }, 50);
    stream.on_transmit(&mut tx, &mut p).unwrap();
    let mut q = PacketBuilder::new(2, Timestamp { micros: 0 }, 1200);
    stream.on_transmit(&mut tx, &mut q).unwrap();
    assert_eq!(tx.acquired, 100);
    let mut events = StreamEvents::new();
    stream.on_packet_loss(&pn(1), &mut events);
    stream.on_packet_ack(&pn(2), &mut events);
    let mut r = PacketBuilder::new(3, Timestamp { micros: 0 }, 1200);
    stream.on_transmit(&mut tx, &mut r).unwrap();
    assert_eq!(r.frames, p.frames);
    assert_eq!(tx.acquired, 100);
    stream.on_packet_ack(&pn(3), &mut events);
    assert!(stream.send.states.iter().all(|s| *s == ByteState::Acked));
    assert!(!stream.send.is_all_acked());
    assert!(!stream.interests(&tx).frame_exchange.transmission);
    assert!(!stream.interests(&tx).frame_exchange.delivery_notifications);
}

#[test]
fn sending_stops_at_the_stream_and_connection_limits() {
    let (mut stream, _conn) = setup(4096, 4096);
    let mut tx = OutgoingConnectionFlowController::new(10);
    assert!(stream.write(&pattern(0, 100)));
    let mut p = PacketBuilder::new(1, Timestamp { micros: 0 }, 1200);
    stream.on_transmit(&mut tx, &mut p).unwrap();
    match &p.frames[..] {
        [Frame::Stream(f)] => assert_eq!(f.data.len(), 10),
        other => panic!("unexpected frames {:?}", other),
    }
    assert!(stream.interests(&tx).connection_flow_control_credits);
    let mut q = PacketBuilder::new(2, Timestamp { micros: 0 }, 1200);
    assert!(stream.on_transmit(&mut tx, &mut q).is_ok());
    assert!(q.frames.is_empty());
    tx.on_max_data(1000);
    stream.send.on_max_stream_data(0);
    assert_eq!(stream.send.window_limit, 8 * 1024);
    let mut r = PacketBuilder::new(3, Timestamp { micros: 0 }, 1200);
    stream.on_transmit(&mut tx, &mut r).unwrap();
    match &r.frames[..] {
        [Frame::Stream(f)] => {
            assert_eq!(f.offset, 10);
            assert_eq!(f.data.len(), 90);
        }
        other => panic!("unexpected frames {:?}", other),
    }
}

#[test]
fn send_buffer_refuses_what_does_not_fit() {
    let mut stream = StreamImpl::new(StreamConfig {
        stream_id: STREAM,
        initial_receive_window: 10,
        desired_flow_control_window: 10,
        initial_send_window: 10,
        max_send_buffer_size: 8,
    });
    assert!(stream.write(&pattern(0, 5)));
    assert!(!stream.write(&pattern(5, 4)));
    assert!(stream.write(&pattern(5, 3)));
    assert_eq!(stream.send.data, pattern(0, 8));
    assert_eq!(stream.send.states, vec![ByteState::Unsent; 8]);
}

#[test]
fn reset_takes_over_from_data_and_carries_the_sent_size() {
    let (mut stream, _conn) = setup(4096, 4096);
    let mut tx = OutgoingConnectionFlowController::new(100 * 1024);
    assert!(stream.write(&pattern(0, 100)));
    let mut p = PacketBuilder::new(1, Timestamp { micros: 0 }, 40);
    stream.on_transmit(&mut tx, &mut p).unwrap();
    let sent = stream.send.sent_offset;
    stream.reset(9);
    let mut q = PacketBuilder::new(2, Timestamp { micros: 0 }, 1200);
    stream.on_transmit(&mut tx, &mut q).unwrap();
    assert_eq!(
        q.frames,
        vec![Frame::ResetStream(ResetStream { stream_id: 1, application_error_code: 9, final_size: sent })]
    );
    let mut r = PacketBuilder::new(3, Timestamp { micros: 0 }, 1200);
    stream.on_transmit(&mut tx, &mut r).unwrap();
    assert!(r.frames.is_empty());
}

#[test]
fn too_small_a_packet_reports_could_not_write() {
    let (mut stream, _conn) = setup(4096, 4096);
    let mut tx = OutgoingConnectionFlowController::new(100 * 1024);
    assert!(stream.write(&pattern(0, 10)));
    let mut p = PacketBuilder::new(1, Timestamp { micros: 0 }, 3);
    assert!(stream.on_transmit(&mut tx, &mut p).is_err());
    assert_eq!(tx.acquired, 0);
    assert_eq!(stream.send.sent_offset, 0);
}

#[test]
fn fin_goes_out_with_the_last_bytes() {
    let (mut stream, _conn) = setup(4096, 4096);
    let mut tx = OutgoingConnectionFlowController::new(100 * 1024);
    assert!(stream.write(&pattern(0, 10)));
    stream.finish();
    assert!(!stream.write(&pattern(10, 1)));
    let mut p = PacketBuilder::new(1, Timestamp { micros: 0 }, 1200);
    stream.on_transmit(&mut tx, &mut p).unwrap();
    assert_eq!(
        p.frames,
        vec![Frame::Stream(StreamFrame { stream_id: 1, offset: 0, data: pattern(0, 10), is_fin: true, is_last_frame: false })]
    );
    let mut events = StreamEvents::new();
    stream.on_packet_ack(&pn(1), &mut events);
    assert!(stream.send.is_all_acked());
}

#[test]
fn lone_fin_is_sent_in_an_empty_frame_and_resent_on_loss() {
    let (mut stream, mut conn) = setup(4096, 4096);
    let mut tx = OutgoingConnectionFlowController::new(100 * 1024);
    assert!(stream.write(&pattern(0, 10)));
    let mut p = PacketBuilder::new(1, Timestamp { micros: 0 }, 1200);
    stream.on_transmit(&mut tx, &mut p).unwrap();
    stream.finish();
    assert!(stream.interests(&tx).frame_exchange.transmission);
    let mut q = PacketBuilder::new(2, Timestamp { micros: 0 }, 1200);
    stream.on_transmit(&mut tx, &mut q).unwrap();
    let fin_frame = vec![Frame::Stream(StreamFrame { stream_id: 1, offset: 10, data: vec![], is_fin: true, is_last_frame: false })];
    assert_eq!(q.frames, fin_frame);
    let mut events = StreamEvents::new();
    stream.on_packet_ack(&pn(1), &mut events);
    stream.on_packet_loss(&pn(2), &mut events);
    assert!(!stream.send.is_all_acked());
    let mut r = PacketBuilder::new(3, Timestamp { micros: 0 }, 1200);
    stream.on_transmit(&mut tx, &mut r).unwrap();
    assert_eq!(r.frames, fin_frame);
    stream.on_packet_ack(&pn(3), &mut events);
    assert!(stream.send.is_all_acked());
    assert!(!stream.interests(&tx).finalization);
    assert!(stream.on_data(&frame(0, vec![], true), &mut conn, &mut events).is_ok());
    assert!(stream.interests(&tx).finalization);
}

#[test]
fn data_past_the_window_on_a_reset_stream_is_a_flow_control_error() {
    let (mut stream, mut conn) = setup(4096, 100 * 1024);
    let mut events = StreamEvents::new();
    assert_eq!(stream.on_reset(3, 0, &mut events), Ok(()));
    assert_eq!(
        stream.on_data(&frame(4090, pattern(4090, 7), false), &mut conn, &mut events),
        Err(StreamError::FlowControlError)
    );
    assert_eq!(
        stream.on_data(&frame(0, pattern(0, 1), false), &mut conn, &mut events),
        Err(StreamError::FinalSizeError)
    );
    assert_eq!(
        stream.on_data(&frame(0, vec![], false), &mut conn, &mut events),
        Err(StreamError::ResetError(3))
    );
}

#[test]
fn peer_reset_records_and_checks_the_final_size() {
    let (mut stream, mut conn) = setup(4096, 100 * 1024);
    let mut events = StreamEvents::new();
    assert!(stream.on_data(&frame(0, pattern(0, 20), false), &mut conn, &mut events).is_ok());
    let mut events = StreamEvents::new();
    assert_eq!(stream.on_reset(1, 10, &mut events), Err(StreamError::FinalSizeError));
    assert_eq!(stream.on_reset(1, 5000, &mut events), Err(StreamError::FlowControlError));
    assert!(!events.read_wakeup);
    assert_eq!(stream.receive.reset_code, None);
    assert_eq!(stream.on_reset(1, 30, &mut events), Ok(()));
    assert_eq!(stream.receive.final_size, Some(30));
    assert_eq!(stream.on_reset(1, 31, &mut events), Err(StreamError::FinalSizeError));
    assert_eq!(
        stream.on_data(&frame(25, pattern(25, 10), false), &mut conn, &mut events),
        Err(StreamError::FinalSizeError)
    );
}

#[test]
fn reading_raises_and_announces_the_stream_window() {
    let (mut stream, mut conn) = setup(100, 100 * 1024);
    let mut tx = OutgoingConnectionFlowController::new(100 * 1024);
    let mut events = StreamEvents::new();
    assert!(stream.on_data(&frame(0, pattern(0, 40), false), &mut conn, &mut events).is_ok());
    assert_eq!(stream.poll_pop(&mut conn), ReadPoll::Data(pattern(0, 40)));
    // 60 bytes still open: not below half of 100
    assert_eq!(stream.receive.window_limit, 100);
    assert!(stream.on_data(&frame(40, pattern(40, 20), false), &mut conn, &mut events).is_ok());
    assert_eq!(stream.poll_pop(&mut conn), ReadPoll::Data(pattern(40, 20)));
    assert_eq!(stream.receive.window_limit, 160);
    assert_eq!(stream.receive.window_update, DeliveryState::Requested(160));
    let announce = vec![Frame::MaxStreamData(MaxStreamData { stream_id: 1, maximum_stream_data: 160 })];
    let mut p = PacketBuilder::new(1, Timestamp { micros: 0 }, 1200);
    assert!(stream.on_transmit(&mut tx, &mut p).is_ok());
    assert_eq!(p.frames, announce);
    stream.on_packet_loss(&pn(1), &mut events);
    let mut q = PacketBuilder::new(2, Timestamp { micros: 0 }, 1200);
    assert!(stream.on_transmit(&mut tx, &mut q).is_ok());
    assert_eq!(q.frames, announce);
    stream.on_packet_ack(&pn(2), &mut events);
    assert_eq!(stream.receive.window_update, DeliveryState::Delivered(160));
    // the peer may now send up to the raised limit
    assert!(stream.on_data(&frame(60, pattern(60, 100), false), &mut conn, &mut events).is_ok());
}

#[test]
fn window_update_goes_before_data() {
    let (mut stream, mut conn) = setup(10, 100 * 1024);
    let mut tx = OutgoingConnectionFlowController::new(100 * 1024);
    let mut events = StreamEvents::new();
    assert!(stream.on_data(&frame(0, pattern(0, 10), false), &mut conn, &mut events).is_ok());
    assert_eq!(stream.poll_pop(&mut conn), ReadPoll::Data(pattern(0, 10)));
    assert!(stream.write(&pattern(0, 5)));
    let mut p = PacketBuilder::new(1, Timestamp { micros: 0 }, 1200);
    assert!(stream.on_transmit(&mut tx, &mut p).is_ok());
    assert_eq!(p.frames.len(), 2);
    assert_eq!(p.frames[0], Frame::MaxStreamData(MaxStreamData { stream_id: 1, maximum_stream_data: 20 }));
    assert!(matches!(&p.frames[1], Frame::Stream(f) if f.data == pattern(0, 5)));
    // a packet too small for the announcement writes nothing
    let (mut other, mut conn2) = setup(10, 100 * 1024);
    assert!(other.on_data(&frame(0, pattern(0, 10), false), &mut conn2, &mut events).is_ok());
    assert_eq!(other.poll_pop(&mut conn2), ReadPoll::Data(pattern(0, 10)));
    assert!(other.write(&pattern(0, 5)));
    let mut tiny = PacketBuilder::new(2, Timestamp { micros: 0 }, 2);
    assert!(other.on_transmit(&mut tx, &mut tiny).is_err());
    assert!(tiny.frames.is_empty());
}
