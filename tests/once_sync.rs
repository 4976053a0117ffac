use quic_core::contexts::{PacketBuilder, PacketNumberRange, StreamId, Timestamp};
use quic_core::frame::{Frame, ResetStream};
use quic_core::once_sync::{DeliveryState, OnceSync};
use quic_core::packet_number::{PacketNumber, PacketNumberSpace};
use quic_core::stream::{ResetStreamToFrameWriter, ResetStreamValue};

type ResetSync = OnceSync<ResetStreamValue, ResetStreamToFrameWriter>;

fn pn(value: u64) -> PacketNumber {
    PacketNumber::new(PacketNumberSpace::ApplicationData, value).unwrap()
}

fn packet(number: u64) -> PacketBuilder {
    PacketBuilder::new(number, Timestamp { micros: 1000 + number }, 1200)
}

const VALUE: ResetStreamValue = ResetStreamValue { application_error_code: 3, final_size: 9 };
const STREAM: StreamId = StreamId { id: 4 };

#[test]
fn new_sync_is_neither_delivered_nor_cancelled() {
    let sync = ResetSync::new();
    assert!(!sync.is_delivered());
    assert!(!sync.is_cancelled());
    let interests = sync.frame_exchange_interests();
    assert!(!interests.transmission);
    assert!(!interests.delivery_notifications);
}

#[test]
fn requested_value_is_written_then_awaits_acknowledgement() {
    let mut sync = ResetSync::new();
    sync.request_delivery(VALUE);
    assert!(sync.frame_exchange_interests().transmission);
    let mut p = packet(1);
    assert!(sync.on_transmit(STREAM, &mut p).is_ok());
    assert_eq!(
        p.frames,
        vec![Frame::ResetStream(ResetStream { stream_id: 4, application_error_code: 3, final_size: 9 })]
    );
    let interests = sync.frame_exchange_interests();
    assert!(!interests.transmission);
    assert!(interests.delivery_notifications);
    // nothing more to send while in flight
    let mut q = packet(2);
    assert!(sync.on_transmit(STREAM, &mut q).is_ok());
    assert!(q.frames.is_empty());
}

#[test]
fn acknowledging_twice_stays_delivered() {
    let mut sync = ResetSync::new();
    sync.request_delivery(VALUE);
    let mut p = packet(7);
    sync.on_transmit(STREAM, &mut p).unwrap();
    sync.on_packet_ack(&pn(7));
    assert!(sync.is_delivered());
    sync.on_packet_ack(&pn(7));
    assert!(sync.is_delivered());
    let mut q = packet(8);
    assert!(sync.on_transmit(STREAM, &mut q).is_ok());
    assert!(q.frames.is_empty());
}

#[test]
fn stale_notifications_are_ignored() {
    let mut sync = ResetSync::new();
    sync.request_delivery(VALUE);
    let mut p = packet(7);
    sync.on_transmit(STREAM, &mut p).unwrap();
    sync.on_packet_ack(&pn(6));
    sync.on_packet_loss(&pn(8));
    assert!(!sync.is_delivered());
    assert!(sync.frame_exchange_interests().delivery_notifications);
}

#[test]
fn lost_value_is_sent_again() {
    let mut sync = ResetSync::new();
    sync.request_delivery(VALUE);
    let mut p = packet(1);
    sync.on_transmit(STREAM, &mut p).unwrap();
    sync.on_packet_loss(&PacketNumberRange { start: pn(0), end: pn(3) });
    assert!(sync.frame_exchange_interests().transmission);
    let mut q = packet(2);
    sync.on_transmit(STREAM, &mut q).unwrap();
    assert_eq!(p.frames, q.frames);
    sync.on_packet_ack(&pn(2));
    assert!(sync.is_delivered());
}

#[test]
fn stop_before_transmit_never_writes() {
    let mut sync = ResetSync::new();
    sync.request_delivery(VALUE);
    sync.stop_sync();
    assert!(sync.is_cancelled());
    let mut p = packet(1);
    assert!(sync.on_transmit(STREAM, &mut p).is_ok());
    assert!(p.frames.is_empty());
    sync.request_delivery(VALUE);
    assert!(sync.on_transmit(STREAM, &mut p).is_ok());
    assert!(p.frames.is_empty());
    assert!(!sync.frame_exchange_interests().transmission);
}

#[test]
fn value_cannot_be_replaced() {
    let mut sync = ResetSync::new();
    sync.request_delivery(VALUE);
    sync.request_delivery(ResetStreamValue { application_error_code: 99, final_size: 0 });
    let mut p = packet(1);
    sync.on_transmit(STREAM, &mut p).unwrap();
    assert_eq!(
        p.frames,
        vec![Frame::ResetStream(ResetStream { stream_id: 4, application_error_code: 3, final_size: 9 })]
    );
}

#[test]
fn full_packet_reports_could_not_write_and_keeps_the_request() {
    let mut sync = ResetSync::new();
    sync.request_delivery(VALUE);
    let mut full = PacketBuilder::new(1, Timestamp { micros: 0 }, 3);
    assert!(sync.on_transmit(STREAM, &mut full).is_err());
    assert!(full.frames.is_empty());
    assert!(sync.frame_exchange_interests().transmission);
    let mut p = packet(2);
    assert!(sync.on_transmit(STREAM, &mut p).is_ok());
    assert_eq!(p.frames.len(), 1);
}

#[test]
fn delivered_value_is_not_cancelled() {
    let mut sync = ResetSync::new();
    sync.request_delivery(VALUE);
    let mut p = packet(1);
    sync.on_transmit(STREAM, &mut p).unwrap();
    sync.on_packet_ack(&pn(1));
    sync.stop_sync();
    assert!(sync.is_delivered());
    assert!(!sync.is_cancelled());
}

#[test]
fn delivery_state_queries_and_cancel() {
    let mut s: DeliveryState<u64> = DeliveryState::Requested(5);
    assert!(s.is_requested());
    s.cancel();
    assert!(s.is_cancelled());
    assert_eq!(s, DeliveryState::Cancelled(Some(5)));
    let mut d: DeliveryState<u64> = DeliveryState::Delivered(1);
    d.cancel();
    assert!(d.is_delivered());
}
