//! A stream: its receiving part, its sending part, and the reset that the
//! sending part can deliver to the peer exactly once in place of its data.

use vstd::prelude::*;
use crate::contexts::{AckSet, OnTransmitError, StreamId, WriteContext};
use crate::flow_control::{
    IncomingConnectionFlowController, OutgoingConnectionFlowController, MAX_RECEIVE_WINDOW,
};
use crate::frame::{Frame, ResetStream, StreamFrame};
use crate::once_sync::{
    acked, lost, requested, sync_transmit_outcome, DeliveryState, FrameExchangeInterests,
    OnceSync, ValueToFrameWriter,
};
use crate::packet_number::PacketNumber;
use crate::send::{
    acked_state, acked_states, fin_pending, lost_state, lost_states, send_outcome, ByteState,
    SendStream,
};
use crate::receive::{
    data_outcome, pop_outcome, window_update_outcome, ReadPoll, ReceiveStream, StreamError,
    StreamEvents,
};

verus! {

/// Why a RESET_STREAM frame from the peer with `final_size` would be
/// refused by a receiving part in state `s`.
pub open spec fn reset_error(s: ReceiveStream, final_size: u64) -> Result<(), StreamError> {
    if final_size > s.window_limit {
        Err(StreamError::FlowControlError)
    } else if s.final_size matches Some(f) && f != final_size {
        Err(StreamError::FinalSizeError)
    } else if final_size < s.highest_offset {
        Err(StreamError::FinalSizeError)
    } else {
        Ok(())
    }
}

/// What a RESET_STREAM frame announces.
#[derive(Clone, Copy, Debug, PartialEq, Eq, Structural)]
pub struct ResetStreamValue {
    pub application_error_code: u64,
    pub final_size: u64,
}

/// Writes a reset as a RESET_STREAM frame.
#[derive(Debug)]
pub struct ResetStreamToFrameWriter;

impl Default for ResetStreamToFrameWriter {
    fn default() -> (r: Self) {
        ResetStreamToFrameWriter
    }
}

impl ValueToFrameWriter<ResetStreamValue> for ResetStreamToFrameWriter {
    open spec fn spec_frame(value: ResetStreamValue, stream_id: StreamId) -> Frame {
        Frame::ResetStream(
            ResetStream {
                stream_id: stream_id.id,
                application_error_code: value.application_error_code,
                final_size: value.final_size,
            },
        )
    }

    fn write_value_as_frame<W: WriteContext>(
        &self,
        value: ResetStreamValue,
        stream_id: StreamId,
        context: &mut W,
    ) -> (r: Option<PacketNumber>) {
        context.write_frame(
            Frame::ResetStream(
                ResetStream {
                    stream_id: stream_id.id,
                    application_error_code: value.application_error_code,
                    final_size: value.final_size,
                },
            ),
        )
    }
}

/// Interests of a stream, combined over its parts.
#[derive(Clone, Copy, Debug, PartialEq, Eq, Structural, Default)]
pub struct StreamInterests {
    pub frame_exchange: FrameExchangeInterests,
    /// Both directions are done and the stream can be dropped.
    pub finalization: bool,
    /// The stream waits for connection-level flow-control credit.
    pub connection_flow_control_credits: bool,
}

#[derive(Clone, Copy, Debug, PartialEq, Eq, Structural)]
pub struct StreamConfig {
    pub stream_id: StreamId,
    pub initial_receive_window: u64,
    /// The receive window the stream keeps open as the application reads.
    pub desired_flow_control_window: u64,
    pub initial_send_window: u64,
    pub max_send_buffer_size: usize,
}

pub struct StreamImpl {
    pub stream_id: StreamId,
    pub receive: ReceiveStream,
    pub send: SendStream,
    pub reset_sync: OnceSync<ResetStreamValue, ResetStreamToFrameWriter>,
}

/// How the sending part, the reset and the packet relate before and after
/// the second step of a transmission opportunity that returned `r`: data
/// until a reset is requested, the reset afterwards.
pub open spec fn transmit_outcome<W: WriteContext>(
    pre: StreamImpl,
    post: StreamImpl,
    conn_pre: OutgoingConnectionFlowController,
    conn_post: OutgoingConnectionFlowController,
    ctx_pre: W,
    ctx_post: W,
    r: Result<(), OnTransmitError>,
) -> bool {
    &&& (pre.reset_sync@ is NotRequested) ==> {
        &&& post.reset_sync@ == pre.reset_sync@
        &&& post.send.window_limit == pre.send.window_limit
        &&& send_outcome(
            pre.send,
            post.send,
            conn_pre,
            conn_post,
            ctx_pre,
            ctx_post,
            pre.stream_id,
            r,
        )
    }
    &&& !(pre.reset_sync@ is NotRequested) ==> {
        &&& post.send == pre.send
        &&& conn_post == conn_pre
        &&& sync_transmit_outcome::<
            ResetStreamValue,
            ResetStreamToFrameWriter,
            W,
        >(
            pre.reset_sync@,
            post.reset_sync@,
            ctx_pre,
            ctx_post,
            pre.stream_id,
            r,
        )
    }
}

impl StreamImpl {
    pub open spec fn wf(&self) -> bool {
        &&& self.receive.wf()
        &&& self.send.wf()
    }

    pub fn new(config: StreamConfig) -> (r: StreamImpl)
        requires
            config.initial_receive_window <= MAX_RECEIVE_WINDOW,
            config.desired_flow_control_window <= MAX_RECEIVE_WINDOW,
        ensures
            r.wf(),
            r.stream_id == config.stream_id,
            r.receive.window_limit == config.initial_receive_window,
            r.receive.desired_window == config.desired_flow_control_window,
            r.receive.window_update == DeliveryState::<u64>::NotRequested,
            r.receive.read_offset == 0,
            r.receive.highest_offset == 0,
            r.receive.final_size.is_none(),
            r.receive.reset_code.is_none(),
            r.receive.held() == Map::<int, u8>::empty(),
            r.reset_sync@ == DeliveryState::<ResetStreamValue>::NotRequested,
            r.send.data@.len() == 0,
            r.send.sent_offset == 0,
            r.send.window_limit == config.initial_send_window,
            r.send.max_buffer_size == config.max_send_buffer_size,
    {
        StreamImpl {
            stream_id: config.stream_id,
            receive: ReceiveStream::new(
                config.initial_receive_window,
                config.desired_flow_control_window,
            ),
            send: SendStream::new(config.initial_send_window, config.max_send_buffer_size),
            reset_sync: OnceSync::new(),
        }
    }

    /// Buffers `bytes` for sending when they all fit; returns whether they
    /// did.
    pub fn write(&mut self, bytes: &Vec<u8>) -> (r: bool)
        requires
            old(self).wf(),
        ensures
            final(self).wf(),
            r == (!old(self).send.finished && old(self).send.data@.len() + bytes@.len()
                <= old(self).send.max_buffer_size),
            r ==> final(self).send.data@ == old(self).send.data@ + bytes@,
            !r ==> final(self).send.data@ == old(self).send.data@,
            final(self).send.sent_offset == old(self).send.sent_offset,
            final(self).receive == old(self).receive,
            final(self).reset_sync@ == old(self).reset_sync@,
            final(self).stream_id == old(self).stream_id,
    {
        self.send.push(bytes)
    }

    /// Ends the sending part after the bytes written so far; the FIN goes
    /// out with the last bytes, or on its own.
    pub fn finish(&mut self)
        requires
            old(self).wf(),
        ensures
            final(self).wf(),
            final(self).send.finished,
            final(self).send.data@ == old(self).send.data@,
            final(self).send.states@ == old(self).send.states@,
            final(self).send.fin == old(self).send.fin,
            final(self).receive == old(self).receive,
            final(self).reset_sync@ == old(self).reset_sync@,
            final(self).stream_id == old(self).stream_id,
    {
        self.send.finish();
    }

    /// Handles a STREAM frame of this stream.
    pub fn on_data(
        &mut self,
        frame: &StreamFrame,
        conn: &mut IncomingConnectionFlowController,
        events: &mut StreamEvents,
    ) -> (r: Result<(), StreamError>)
        requires
            old(self).wf(),
            old(conn).wf(),
        ensures
            final(self).wf(),
            final(conn).wf(),
            data_outcome(
                old(self).receive,
                final(self).receive,
                *old(conn),
                *final(conn),
                *old(events),
                *final(events),
                frame.offset,
                frame.data@,
                frame.is_fin,
                r,
            ),
            final(self).reset_sync@ == old(self).reset_sync@,
            final(self).stream_id == old(self).stream_id,
            final(self).send == old(self).send,
    {
        self.receive.on_data(frame.offset, &frame.data, frame.is_fin, conn, events)
    }

    /// Reads the next contiguous bytes.
    pub fn poll_pop(&mut self, conn: &mut IncomingConnectionFlowController) -> (r: ReadPoll)
        requires
            old(self).wf(),
            old(conn).wf(),
            old(self).receive.highest_offset - old(self).receive.read_offset <= old(
                conn,
            ).acquired - old(conn).released,
        ensures
            final(self).wf(),
            final(conn).wf(),
            pop_outcome(old(self).receive, final(self).receive, *old(conn), *final(conn), r),
            final(self).receive.highest_offset == old(self).receive.highest_offset,
            final(self).receive.final_size == old(self).receive.final_size,
            final(self).receive.reset_code == old(self).receive.reset_code,
            final(self).reset_sync@ == old(self).reset_sync@,
            final(self).send == old(self).send,
            final(self).stream_id == old(self).stream_id,
    {
        self.receive.poll_pop(conn)
    }

    /// Handles a RESET_STREAM frame from the peer, which carries the final
    /// size of the stream. A final size past the stream window is a
    /// flow-control error; one that contradicts a known final size, or
    /// lies below bytes already received, is a final-size error; either way
    /// nothing changes. Otherwise the final size is recorded, so that data
    /// past it is refused, readers see the error code from now on, and are
    /// woken. A second reset keeps the first code.
    pub fn on_reset(
        &mut self,
        application_error_code: u64,
        final_size: u64,
        events: &mut StreamEvents,
    ) -> (r: Result<(), StreamError>)
        requires
            old(self).wf(),
        ensures
            final(self).wf(),
            final(self).reset_sync@ == old(self).reset_sync@,
            final(self).send == old(self).send,
            final(self).stream_id == old(self).stream_id,
            final(self).receive.held() == old(self).receive.held(),
            final(self).receive.read_offset == old(self).receive.read_offset,
            final(self).receive.highest_offset == old(self).receive.highest_offset,
            final(self).receive.window_limit == old(self).receive.window_limit,
            final(self).receive.desired_window == old(self).receive.desired_window,
            final(self).receive.window_update == old(self).receive.window_update,
            r == reset_error(old(self).receive, final_size),
            r.is_err() ==> {
                &&& final(self).receive.reset_code == old(self).receive.reset_code
                &&& final(self).receive.final_size == old(self).receive.final_size
                &&& *final(events) == *old(events)
            },
            r.is_ok() ==> {
                &&& final(self).receive.reset_code == if old(self).receive.reset_code.is_some() {
                    old(self).receive.reset_code
                } else {
                    Some(application_error_code)
                }
                &&& final(self).receive.final_size == Some(final_size)
                &&& final(events).read_wakeup
            },
    {
        if final_size > self.receive.window_limit {
            return Err(StreamError::FlowControlError);
        }
        if let Some(f) = self.receive.final_size {
            if f != final_size {
                return Err(StreamError::FinalSizeError);
            }
        }
        if final_size < self.receive.highest_offset {
            return Err(StreamError::FinalSizeError);
        }
        if self.receive.reset_code.is_none() {
            self.receive.reset_code = Some(application_error_code);
        }
        self.receive.final_size = Some(final_size);
        events.read_wakeup = true;
        Ok(())
    }

    /// Resets the sending part with `application_error_code`; the reset,
    /// whose final size is the highest offset sent, goes out until
    /// acknowledged, and no more data is sent. Only the first reset counts.
    pub fn reset(&mut self, application_error_code: u64)
        ensures
            final(self).reset_sync@ == requested(
                old(self).reset_sync@,
                ResetStreamValue { application_error_code, final_size: old(self).send.sent_offset },
            ),
            final(self).receive == old(self).receive,
            final(self).send == old(self).send,
            final(self).stream_id == old(self).stream_id,
    {
        let value = ResetStreamValue { application_error_code, final_size: self.send.sent_offset };
        self.reset_sync.request_delivery(value);
    }

    /// Offers a transmission opportunity. A raised receive limit waiting to
    /// be announced goes first, as a MAX_STREAM_DATA frame; when the packet
    /// does not take it, nothing more is written. Then, until a reset is
    /// requested, the stream writes data; afterwards only the reset, as a
    /// RESET_STREAM frame, until it is in flight. `mid` is the packet
    /// between the two steps.
    pub fn on_transmit<W: WriteContext>(
        &mut self,
        conn: &mut OutgoingConnectionFlowController,
        context: &mut W,
    ) -> (r: Result<(), OnTransmitError>)
        requires
            old(self).wf(),
            old(conn).wf(),
        ensures
            final(self).wf(),
            final(conn).wf(),
            final(self).stream_id == old(self).stream_id,
            exists|mid: W, first: Result<(), OnTransmitError>|
                {
                    &&& window_update_outcome(
                        old(self).receive,
                        final(self).receive,
                        *old(context),
                        mid,
                        old(self).stream_id,
                        first,
                    )
                    &&& first.is_err() ==> {
                        &&& r == first
                        &&& *final(context) == mid
                        &&& final(self).send == old(self).send
                        &&& final(self).reset_sync@ == old(self).reset_sync@
                        &&& *final(conn) == *old(conn)
                    }
                    &&& first.is_ok() ==> transmit_outcome::<W>(
                        *old(self),
                        *final(self),
                        *old(conn),
                        *final(conn),
                        mid,
                        *final(context),
                        r,
                    )
                },
    {
        let ghost ctx0 = *context;
        let first = self.receive.on_transmit(self.stream_id, context);
        let ghost mid = *context;
        if first.is_err() {
            assert(window_update_outcome(old(self).receive, self.receive, ctx0, mid, self.stream_id, first));
            return first;
        }
        let r = if self.reset_sync.is_not_requested() {
            self.send.on_transmit(self.stream_id, conn, context)
        } else {
            self.reset_sync.on_transmit(self.stream_id, context)
        };
        assert(window_update_outcome(old(self).receive, self.receive, ctx0, mid, self.stream_id, first));
        r
    }

    /// Settles what the acknowledged packets carried: the reset, stream
    /// bytes and FIN, and the receive-limit announcement. The connection
    /// flow controllers are not part of the stream; the connection hands
    /// them the same notification.
    pub fn on_packet_ack<A: AckSet>(&mut self, ack_set: &A, events: &mut StreamEvents)
        requires
            old(self).wf(),
        ensures
            final(self).wf(),
            final(self).receive == (ReceiveStream {
                window_update: acked(old(self).receive.window_update, ack_set),
                ..old(self).receive
            }),
            final(self).reset_sync@ == acked(old(self).reset_sync@, ack_set),
            final(self).send.states@ == acked_states(old(self).send.states@, ack_set),
            final(self).send.fin == acked_state(old(self).send.fin, ack_set),
            final(self).send.data@ == old(self).send.data@,
            final(self).send.sent_offset == old(self).send.sent_offset,
            final(self).stream_id == old(self).stream_id,
            *final(events) == *old(events),
    {
        self.reset_sync.on_packet_ack(ack_set);
        self.send.on_packet_ack(ack_set);
        self.receive.on_packet_ack(ack_set);
    }

    /// Makes what the lost packets carried eligible for sending again: the
    /// reset, stream bytes and FIN, and the receive-limit announcement. The
    /// connection flow controllers are not part of the stream; the
    /// connection hands them the same notification.
    pub fn on_packet_loss<A: AckSet>(&mut self, ack_set: &A, events: &mut StreamEvents)
        requires
            old(self).wf(),
        ensures
            final(self).wf(),
            final(self).receive == (ReceiveStream {
                window_update: match old(self).receive.window_update {
                    DeliveryState::InFlight(f) => if ack_set.spec_contains(f.packet.packet_nr) {
                        DeliveryState::Requested(old(self).receive.window_limit)
                    } else {
                        old(self).receive.window_update
                    },
                    _ => old(self).receive.window_update,
                },
                ..old(self).receive
            }),
            final(self).reset_sync@ == lost(old(self).reset_sync@, ack_set),
            final(self).send.states@ == lost_states(old(self).send.states@, ack_set),
            final(self).send.fin == lost_state(old(self).send.fin, ack_set),
            final(self).send.data@ == old(self).send.data@,
            final(self).send.sent_offset == old(self).send.sent_offset,
            final(self).stream_id == old(self).stream_id,
            *final(events) == *old(events),
    {
        self.reset_sync.on_packet_loss(ack_set);
        self.send.on_packet_loss(ack_set);
        self.receive.on_packet_loss(ack_set);
    }

    /// Whether the reset reached the peer.
    pub fn is_reset_delivered(&self) -> (r: bool)
        ensures
            r == self.reset_sync@ is Delivered,
    {
        self.reset_sync.is_delivered()
    }

    /// The interests of the stream, combined over its parts: the reset's,
    /// or, before any reset, the data's; finalization once the receiving
    /// part ended and the sending part ended too, by a delivered reset or
    /// by the acknowledgement of every byte and the FIN; and connection
    /// credit while bytes past the highest offset sent wait and the
    /// connection has none.
    pub fn interests(&self, conn: &OutgoingConnectionFlowController) -> (r: StreamInterests)
        requires
            self.wf(),
            conn.wf(),
        ensures
            r.frame_exchange.transmission == (self.reset_sync@ is Requested || (
            self.reset_sync@ is NotRequested && ((exists|i: int|
                0 <= i < self.send.states@.len() && self.send.states@[i] == ByteState::Unsent)
                || fin_pending(self.send)))),
            r.frame_exchange.delivery_notifications == (self.reset_sync@ is InFlight || (exists|
                i: int,
            |
                0 <= i < self.send.states@.len() && self.send.states@[i] is InFlight)
                || self.send.fin is InFlight),
            r.finalization == ((self.receive.reset_code.is_some() || self.receive.final_size
                == Some(self.receive.read_offset)) && (self.reset_sync@ is Delivered || (
            self.send.finished && self.send.fin == ByteState::Acked && forall|i: int|
                0 <= i < self.send.states@.len() ==> self.send.states@[i] == ByteState::Acked))),
            r.connection_flow_control_credits == (self.reset_sync@ is NotRequested
                && self.send.sent_offset < self.send.data@.len() && conn.limit == conn.acquired),
    {
        let receive_done = self.receive.reset_code.is_some() || match self.receive.final_size {
            Some(f) => f == self.receive.read_offset,
            None => false,
        };
        let reset = self.reset_sync.frame_exchange_interests();
        let idle = self.reset_sync.is_not_requested();
        let fin_waits = self.send.finished && self.send.fin == ByteState::Unsent;
        let fin_in_flight = match self.send.fin {
            ByteState::InFlight(_) => true,
            _ => false,
        };
        let data = FrameExchangeInterests {
            transmission: idle && (self.send.has_unsent() || fin_waits),
            delivery_notifications: self.send.has_in_flight() || fin_in_flight,
        };
        let send_done = self.reset_sync.is_delivered() || self.send.is_all_acked();
        StreamInterests {
            frame_exchange: reset.merge(data),
            finalization: receive_done && send_done,
            connection_flow_control_credits: idle && self.send.sent_offset
                < self.send.data.len() as u64 && conn.available_credit() == 0,
        }
    }
}

} // verus!
