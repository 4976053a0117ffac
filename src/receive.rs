//! The receiving part of a stream: reassembles bytes that arrive at
//! arbitrary offsets, in any order and with any overlap, and hands them to
//! the application in order.

use vstd::prelude::*;
use crate::bytes::copy_range;
use crate::contexts::{AckSet, OnTransmitError, StreamId, WriteContext};
use crate::frame::{encoding_size, Frame, MaxStreamData};
use crate::once_sync::{acked, DeliveryState, InFlightDelivery, InflightPacketInfo};
use crate::flow_control::{raised_limit, IncomingConnectionFlowController, MAX_RECEIVE_WINDOW, VARINT_MAX};

verus! {

/// Why received stream data was refused.
#[derive(Clone, Copy, Debug, PartialEq, Eq, Structural)]
pub enum StreamError {
    /// The data lies beyond the stream's or the connection's window.
    FlowControlError,
    /// The data contradicts the final size of the stream.
    FinalSizeError,
    /// The peer reset the stream with this application error code.
    ResetError(u64),
}

/// What a read returns.
#[derive(Debug, PartialEq, Eq)]
pub enum ReadPoll {
    /// The next contiguous bytes of the stream.
    Data(Vec<u8>),
    /// Every byte up to the final size was read.
    EndOfStream,
    /// The next byte has not arrived yet.
    Pending,
    /// The peer reset the stream with this application error code.
    Reset(u64),
}

/// Wakeups produced while handling a notification.
#[derive(Clone, Copy, Debug, PartialEq, Eq, Structural)]
pub struct StreamEvents {
    /// A reader waiting on the stream can make progress.
    pub read_wakeup: bool,
}

impl StreamEvents {
    pub fn new() -> (r: StreamEvents)
        ensures
            !r.read_wakeup,
    {
        StreamEvents { read_wakeup: false }
    }
}

/// Reassembly state. The bytes from `read_offset` up to `highest_offset`
/// are held in `buffer`, and `filled` tells which of them arrived.
pub struct ReceiveStream {
    /// Everything before this offset was handed to the application.
    pub read_offset: u64,
    /// The end of the highest byte received; the stream window is charged
    /// up to here, and never twice for the same byte.
    pub highest_offset: u64,
    pub buffer: Vec<u8>,
    pub filled: Vec<bool>,
    /// The final size, once a frame carrying FIN arrived.
    pub final_size: Option<u64>,
    /// The peer may not send past this offset.
    pub window_limit: u64,
    /// Once fewer than half of these bytes remain between the read offset
    /// and the limit, the limit moves to the read offset plus these bytes.
    pub desired_window: u64,
    /// The announcement of the latest raised limit, sent until
    /// acknowledged; a newer limit replaces one not yet acknowledged.
    pub window_update: DeliveryState<u64>,
    /// The error code of a reset received from the peer.
    pub reset_code: Option<u64>,
}

/// The end offset of `len` bytes at `offset`.
pub open spec fn end_of(offset: u64, len: nat) -> int {
    offset + len
}

/// How a receive stream, its connection controller and the wakeups relate
/// before and after `on_data` of `data` at `offset`: on a refusal nothing
/// changes; otherwise the held bytes are the union of those held and the new
/// ones at or past the read offset, bytes already held keep their value,
/// and the connection is charged only for the growth of the highest offset.
pub open spec fn data_outcome(
    pre: ReceiveStream,
    post: ReceiveStream,
    conn_pre: IncomingConnectionFlowController,
    conn_post: IncomingConnectionFlowController,
    ev_pre: StreamEvents,
    ev_post: StreamEvents,
    offset: u64,
    data: Seq<u8>,
    is_fin: bool,
    r: Result<(), StreamError>,
) -> bool {
    let end = end_of(offset, data.len());
    match pre.data_error(conn_pre, offset, data.len(), is_fin) {
        Some(e) => {
            &&& r == Err::<(), StreamError>(e)
            &&& post.held() == pre.held()
            &&& post.read_offset == pre.read_offset
            &&& post.highest_offset == pre.highest_offset
            &&& post.final_size == pre.final_size
            &&& post.window_limit == pre.window_limit
            &&& post.desired_window == pre.desired_window
            &&& post.window_update == pre.window_update
            &&& post.reset_code == pre.reset_code
            &&& conn_post == conn_pre
            &&& ev_post == ev_pre
        },
        None => {
            &&& r.is_ok()
            &&& post.read_offset == pre.read_offset
            &&& post.window_limit == pre.window_limit
            &&& post.desired_window == pre.desired_window
            &&& post.window_update == pre.window_update
            &&& post.reset_code == pre.reset_code
            &&& post.highest_offset == if end > pre.highest_offset {
                end
            } else {
                pre.highest_offset as int
            }
            &&& post.final_size == if is_fin {
                Some(end as u64)
            } else {
                pre.final_size
            }
            &&& post.held() == Map::new(
                |o: int|
                    pre.held().contains_key(o) || (pre.read_offset <= o
                        && offset <= o < end),
                |o: int|
                    if pre.held().contains_key(o) {
                        pre.held()[o]
                    } else {
                        data[o - offset]
                    },
            )
            &&& conn_post.acquired == conn_pre.acquired + (
            post.highest_offset - pre.highest_offset)
            &&& conn_post.released == conn_pre.released
            &&& conn_post.window_limit == conn_pre.window_limit
            &&& conn_post.desired_window == conn_pre.desired_window
            &&& conn_post.announcement == conn_pre.announcement
            &&& ev_post.read_wakeup == (ev_pre.read_wakeup || (
            !pre.is_readable() && post.is_readable()))
        },
    }
}

/// How a receive stream and its connection controller relate before and
/// after `poll_pop` returned `r`: a reset is reported first; otherwise the
/// longest run of held bytes at the read offset is handed out and released,
/// or, when there is none, the end of the stream or `Pending`. Handing out
/// bytes raises the stream limit as `raised_limit` says, and a raised limit
/// is to be announced.
pub open spec fn pop_outcome(
    pre: ReceiveStream,
    post: ReceiveStream,
    conn_pre: IncomingConnectionFlowController,
    conn_post: IncomingConnectionFlowController,
    r: ReadPoll,
) -> bool {
    &&& post.desired_window == pre.desired_window
    &&& post.final_size == pre.final_size
    &&& post.reset_code == pre.reset_code
    &&& post.highest_offset == pre.highest_offset
    &&& post.window_limit == if r is Data {
        raised_limit(pre.window_limit, post.read_offset, pre.desired_window)
    } else {
        pre.window_limit
    }
    &&& post.window_update == if post.window_limit > pre.window_limit {
        DeliveryState::Requested(post.window_limit)
    } else {
        pre.window_update
    }
    &&& match r {
        ReadPoll::Reset(c) => {
            &&& pre.reset_code == Some(c)
            &&& post.read_offset == pre.read_offset
            &&& post.held() == pre.held()
            &&& conn_post == conn_pre
        },
        ReadPoll::Data(d) => {
            let n = d@.len();
            &&& pre.reset_code.is_none()
            &&& 0 < n <= pre.buffer@.len()
            &&& d@ == pre.buffer@.subrange(0, n as int)
            &&& forall|j: int| 0 <= j < n ==> pre.filled@[j]
            &&& (n == pre.buffer@.len() || !pre.filled@[n as int])
            &&& post.read_offset == pre.read_offset + n
            &&& post.held() == Map::new(
                |o: int| pre.held().contains_key(o) && o >= post.read_offset,
                |o: int| pre.held()[o],
            )
            &&& conn_post.released == conn_pre.released + n
            &&& conn_post.acquired == conn_pre.acquired
            &&& conn_post.window_limit == raised_limit(
                conn_pre.window_limit,
                conn_post.released,
                conn_pre.desired_window,
            )
        },
        ReadPoll::EndOfStream => {
            &&& pre.reset_code.is_none()
            &&& !pre.held().contains_key(pre.read_offset as int)
            &&& pre.final_size == Some(pre.read_offset)
            &&& post.read_offset == pre.read_offset
            &&& post.held() == pre.held()
            &&& conn_post == conn_pre
        },
        ReadPoll::Pending => {
            &&& pre.reset_code.is_none()
            &&& !pre.held().contains_key(pre.read_offset as int)
            &&& pre.final_size != Some(pre.read_offset)
            &&& post.read_offset == pre.read_offset
            &&& post.held() == pre.held()
            &&& conn_post == conn_pre
        },
    }
}

/// How the receiving part and the packet relate before and after a
/// transmission opportunity that returned `r`: a raised limit waiting to be
/// announced goes into the packet as a MAX_STREAM_DATA frame, and is then
/// in flight in that packet; when the packet does not take the frame,
/// `CouldNotWriteFrame` and nothing changes. Otherwise nothing changes and
/// the packet is untouched.
pub open spec fn window_update_outcome<W: WriteContext>(
    pre: ReceiveStream,
    post: ReceiveStream,
    ctx_pre: W,
    ctx_post: W,
    stream_id: StreamId,
    r: Result<(), OnTransmitError>,
) -> bool {
    &&& post.read_offset == pre.read_offset
    &&& post.highest_offset == pre.highest_offset
    &&& post.buffer@ == pre.buffer@
    &&& post.filled@ == pre.filled@
    &&& post.final_size == pre.final_size
    &&& post.window_limit == pre.window_limit
    &&& post.desired_window == pre.desired_window
    &&& post.reset_code == pre.reset_code
    &&& match pre.window_update {
        DeliveryState::Requested(v) => {
            let frame = Frame::MaxStreamData(
                MaxStreamData { stream_id: stream_id.id, maximum_stream_data: v },
            );
            if ctx_pre.spec_accepts(encoding_size(frame)) {
                &&& r == Ok::<(), OnTransmitError>(())
                &&& post.window_update == DeliveryState::InFlight(
                    InFlightDelivery {
                        packet: InflightPacketInfo {
                            packet_nr: ctx_pre.spec_packet_number(),
                            timestamp: ctx_pre.spec_current_time(),
                        },
                        value: v,
                    },
                )
                &&& ctx_post.frames_written() == ctx_pre.frames_written().push(frame)
            } else {
                &&& r == Err::<(), OnTransmitError>(OnTransmitError::CouldNotWriteFrame)
                &&& post.window_update == pre.window_update
                &&& ctx_post.frames_written() == ctx_pre.frames_written()
            }
        },
        _ => {
            &&& r == Ok::<(), OnTransmitError>(())
            &&& post.window_update == pre.window_update
            &&& ctx_post == ctx_pre
        },
    }
}

impl ReceiveStream {
    pub open spec fn wf(&self) -> bool {
        &&& self.read_offset <= self.highest_offset <= self.window_limit <= VARINT_MAX
        &&& self.window_limit - self.read_offset <= MAX_RECEIVE_WINDOW
        &&& self.desired_window <= MAX_RECEIVE_WINDOW
        &&& self.buffer@.len() == self.highest_offset - self.read_offset
        &&& self.filled@.len() == self.buffer@.len()
        &&& self.final_size matches Some(f) ==> self.highest_offset <= f
    }

    /// The bytes received and not yet read, by offset.
    pub open spec fn held(&self) -> Map<int, u8> {
        Map::new(
            |o: int|
                self.read_offset <= o < self.highest_offset && self.filled@[o - self.read_offset],
            |o: int| self.buffer@[o - self.read_offset],
        )
    }

    /// Whether a read would return something other than `Pending`.
    pub open spec fn is_readable(&self) -> bool {
        ||| self.held().contains_key(self.read_offset as int)
        ||| self.final_size == Some(self.read_offset)
        ||| self.reset_code.is_some()
    }

    /// Why data of `len` bytes at `offset` would be refused, if it would.
    /// Flow-control violations, which are fatal to the connection, come
    /// first, whatever state the stream is in; then contradictions of the
    /// final size; then a reset by the peer.
    pub open spec fn data_error(
        &self,
        conn: IncomingConnectionFlowController,
        offset: u64,
        len: nat,
        is_fin: bool,
    ) -> Option<StreamError> {
        let end = end_of(offset, len);
        if end > self.window_limit {
            Some(StreamError::FlowControlError)
        } else if end > self.highest_offset && end - self.highest_offset > conn.window_limit
            - conn.acquired {
            Some(StreamError::FlowControlError)
        } else if self.final_size matches Some(f) && (end > f || (is_fin && end != f)) {
            Some(StreamError::FinalSizeError)
        } else if is_fin && end < self.highest_offset {
            Some(StreamError::FinalSizeError)
        } else if self.reset_code is Some {
            Some(StreamError::ResetError(self.reset_code->Some_0))
        } else {
            None
        }
    }

    pub fn new(initial_receive_window: u64, desired_window: u64) -> (r: ReceiveStream)
        requires
            initial_receive_window <= MAX_RECEIVE_WINDOW,
            desired_window <= MAX_RECEIVE_WINDOW,
        ensures
            r.wf(),
            r.read_offset == 0,
            r.highest_offset == 0,
            r.window_limit == initial_receive_window,
            r.desired_window == desired_window,
            r.window_update == DeliveryState::<u64>::NotRequested,
            r.final_size.is_none(),
            r.reset_code.is_none(),
            r.held() == Map::<int, u8>::empty(),
    {
        let r = ReceiveStream {
            read_offset: 0,
            highest_offset: 0,
            buffer: Vec::new(),
            filled: Vec::new(),
            final_size: None,
            window_limit: initial_receive_window,
            desired_window,
            window_update: DeliveryState::NotRequested,
            reset_code: None,
        };
        assert(r.held() =~= Map::<int, u8>::empty());
        r
    }

    fn is_readable_exec(&self) -> (r: bool)
        requires
            self.wf(),
        ensures
            r == self.is_readable(),
    {
        (self.highest_offset > self.read_offset && self.filled[0]) || (match self.final_size {
            Some(f) => f == self.read_offset,
            None => false,
        }) || self.reset_code.is_some()
    }

    /// Inserts `data` at `offset`. Bytes already held, or already read, are
    /// kept as they are; the connection is charged only for bytes past the
    /// highest offset received so far. On error nothing changes.
    pub fn on_data(
        &mut self,
        offset: u64,
        data: &Vec<u8>,
        is_fin: bool,
        conn: &mut IncomingConnectionFlowController,
        events: &mut StreamEvents,
    ) -> (r: Result<(), StreamError>)
        requires
            old(self).wf(),
            old(conn).wf(),
        ensures
            final(self).wf(),
            final(conn).wf(),
            data_outcome(
                *old(self),
                *final(self),
                *old(conn),
                *final(conn),
                *old(events),
                *final(events),
                offset,
                data@,
                is_fin,
                r,
            ),
    {
        let len = data.len() as u64;
        if len > self.window_limit || offset > self.window_limit - len {
            return Err(StreamError::FlowControlError);
        }
        let end = offset + len;
        let charge = if end > self.highest_offset {
            end - self.highest_offset
        } else {
            0
        };
        if charge > conn.available_window() {
            return Err(StreamError::FlowControlError);
        }
        if let Some(f) = self.final_size {
            if end > f || (is_fin && end != f) {
                return Err(StreamError::FinalSizeError);
            }
        }
        if is_fin && end < self.highest_offset {
            return Err(StreamError::FinalSizeError);
        }
        if let Some(code) = self.reset_code {
            return Err(StreamError::ResetError(code));
        }
        let was_readable = self.is_readable_exec();
        let ghost old_held = self.held();
        let ghost old_buffer = self.buffer@;
        let ghost old_filled = self.filled@;
        let ghost ro = self.read_offset as int;
        let ghost old_len = old_buffer.len();
        let ghost pre = *self;
        let _ = conn.acquire_window(charge);
        if end > self.highest_offset {
            let new_len = (end - self.read_offset) as usize;
            while self.buffer.len() < new_len
                invariant
                    self.buffer@.len() == self.filled@.len(),
                    old_len <= self.buffer@.len() <= new_len,
                    self.read_offset == pre.read_offset,
                    self.highest_offset == pre.highest_offset,
                    self.final_size == pre.final_size,
                    self.window_limit == pre.window_limit,
                    self.desired_window == pre.desired_window,
                    self.window_update == pre.window_update,
                    self.reset_code == pre.reset_code,
                    new_len == end - self.read_offset,
                    forall|j: int| 0 <= j < old_len ==> self.buffer@[j] == old_buffer[j],
                    forall|j: int| 0 <= j < old_len ==> self.filled@[j] == old_filled[j],
                    forall|j: int| old_len <= j < self.filled@.len() ==> !self.filled@[j],
                decreases new_len - self.buffer@.len(),
            {
                self.buffer.push(0);
                self.filled.push(false);
            }
            self.highest_offset = end;
        }
        assert(forall|j: int| 0 <= j < old_len ==> self.filled@[j] == old_filled[j]);
        assert(forall|j: int| 0 <= j < old_len ==> self.buffer@[j] == old_buffer[j]);
        assert(forall|j: int| old_len <= j < self.filled@.len() ==> !self.filled@[j]);
        let ghost ext_len = self.buffer@.len();
        let ghost ext_buffer = self.buffer@;
        let ghost ext_filled = self.filled@;
        let mut i: usize = 0;
        while i < data.len()
            invariant
                self.read_offset as int == ro,
                self.final_size == pre.final_size,
                self.window_limit == pre.window_limit,
                self.desired_window == pre.desired_window,
                self.window_update == pre.window_update,
                self.reset_code == pre.reset_code,
                self.window_limit <= VARINT_MAX,
                ext_len == self.highest_offset - self.read_offset,
                self.highest_offset as int == ro + ext_len,
                self.highest_offset >= end,
                end == offset + data@.len(),
                self.buffer@.len() == ext_len,
                self.filled@.len() == ext_len,
                0 <= i <= data@.len(),
                forall|j: int|
                    0 <= j < ext_len ==> #[trigger] self.filled@[j] == (ext_filled[j] || (offset
                        <= ro + j && ro + j < offset + i)),
                forall|j: int|
                    0 <= j < ext_len ==> self.buffer@[j] == if ext_filled[j] {
                        ext_buffer[j]
                    } else if offset <= ro + j < offset + i {
                        data@[ro + j - offset]
                    } else {
                        ext_buffer[j]
                    },
            decreases data@.len() - i,
        {
            let o = offset + i as u64;
            let ghost prev_b = self.buffer@;
            let ghost prev_f = self.filled@;
            assert(forall|j: int|
                0 <= j < ext_len ==> prev_f[j] == (ext_filled[j] || (offset <= ro + j
                    < offset + i)));
            if o >= self.read_offset {
                let blen = self.buffer.len();
                assert(o - self.read_offset < blen);
                let idx = (o - self.read_offset) as usize;
                if !self.filled[idx] {
                    self.buffer[idx] = data[i];
                    self.filled[idx] = true;
                }
                assert(ro + idx == offset + i);
                assert(self.filled@[idx as int]);
                assert(!ext_filled[idx as int] ==> self.buffer@[idx as int] == data@[i as int]);
                assert(ext_filled[idx as int] ==> self.buffer@[idx as int] == ext_buffer[idx as int]);
            }
            assert(o >= ro ==> self.filled@[o - ro]);
            assert(o >= ro && !ext_filled[o - ro] ==> self.buffer@[o - ro] == data@[i as int]);
            assert(o >= ro && ext_filled[o - ro] ==> self.buffer@[o - ro] == ext_buffer[o - ro]);
            i = i + 1;
            assert forall|j: int| 0 <= j < ext_len implies self.filled@[j] == (ext_filled[j] || (
            offset <= ro + j < offset + i)) by {
                if ro + j != offset + i - 1 {
                    assert(self.filled@[j] == prev_f[j]);
                    assert(prev_f[j] == (ext_filled[j] || (offset <= ro + j < offset + i - 1)));
                } else {
                    assert(o >= ro);
                    assert(j == o - ro);
                    assert(self.filled@[j]);
                }
            }
            assert forall|j: int| 0 <= j < ext_len implies self.buffer@[j] == if ext_filled[j] {
                ext_buffer[j]
            } else if offset <= ro + j < offset + i {
                data@[ro + j - offset]
            } else {
                ext_buffer[j]
            } by {
                if ro + j != offset + i - 1 {
                    assert(self.buffer@[j] == prev_b[j]);
                }
            }

        }
        assert(i == data@.len());
        let ghost final_filled = self.filled@;
        let ghost final_buffer = self.buffer@;
        assert(forall|j: int|
            0 <= j < ext_len ==> final_filled[j] == (ext_filled[j] || (offset <= ro + j < end)));
        assert(forall|j: int|
            0 <= j < ext_len ==> final_buffer[j] == if ext_filled[j] {
                ext_buffer[j]
            } else if offset <= ro + j < end {
                data@[ro + j - offset]
            } else {
                ext_buffer[j]
            });
        let ghost expected = Map::new(
            |o: int| old_held.contains_key(o) || (ro <= o && offset <= o < end),
            |o: int|
                if old_held.contains_key(o) {
                    old_held[o]
                } else {
                    data@[o - offset]
                },
        );
        assert forall|o: int| #[trigger] self.held().contains_key(o) == expected.contains_key(o) by {
            if ro <= o < self.highest_offset {
                assert(0 <= o - ro < ext_len);
                assert(final_filled[o - ro] == (ext_filled[o - ro] || (offset <= ro + (o - ro) < end)));
            }
        }
        assert forall|o: int| #[trigger] self.held().contains_key(o) implies self.held()[o]
            == expected[o] by {
            assert(0 <= o - ro < ext_len);
            assert(final_buffer[o - ro] == if ext_filled[o - ro] {
                ext_buffer[o - ro]
            } else if offset <= ro + (o - ro) < end {
                data@[ro + (o - ro) - offset]
            } else {
                ext_buffer[o - ro]
            });
        }
        assert(self.held() =~= expected);
        if is_fin {
            self.final_size = Some(end);
        }
        if !was_readable && self.is_readable_exec() {
            events.read_wakeup = true;
        }
        Ok(())
    }

    /// Writes a MAX_STREAM_DATA frame with the raised limit when one waits
    /// to be announced.
    pub fn on_transmit<W: WriteContext>(&mut self, stream_id: StreamId, context: &mut W) -> (r:
        Result<(), OnTransmitError>)
        requires
            old(self).wf(),
        ensures
            final(self).wf(),
            final(self).held() == old(self).held(),
            window_update_outcome(*old(self), *final(self), *old(context), *final(context), stream_id, r),
    {
        if let DeliveryState::Requested(maximum_stream_data) = self.window_update {
            let frame = Frame::MaxStreamData(
                MaxStreamData { stream_id: stream_id.id, maximum_stream_data },
            );
            match context.write_frame(frame) {
                Some(packet_nr) => {
                    let timestamp = context.current_time();
                    self.window_update = DeliveryState::InFlight(
                        InFlightDelivery {
                            packet: InflightPacketInfo { packet_nr, timestamp },
                            value: maximum_stream_data,
                        },
                    );
                    Ok(())
                },
                None => Err(OnTransmitError::CouldNotWriteFrame),
            }
        } else {
            Ok(())
        }
    }

    /// An acknowledged announcement is settled.
    pub fn on_packet_ack<A: AckSet>(&mut self, ack_set: &A)
        requires
            old(self).wf(),
        ensures
            *final(self) == (ReceiveStream {
                window_update: acked(old(self).window_update, ack_set),
                ..*old(self)
            }),
    {
        if let DeliveryState::InFlight(in_flight) = self.window_update {
            if ack_set.contains(in_flight.packet.packet_nr) {
                self.window_update = DeliveryState::Delivered(in_flight.value);
            }
        }
    }

    /// A lost announcement is sent again, carrying the current limit.
    pub fn on_packet_loss<A: AckSet>(&mut self, ack_set: &A)
        requires
            old(self).wf(),
        ensures
            *final(self) == (ReceiveStream {
                window_update: match old(self).window_update {
                    DeliveryState::InFlight(f) => if ack_set.spec_contains(f.packet.packet_nr) {
                        DeliveryState::Requested(old(self).window_limit)
                    } else {
                        old(self).window_update
                    },
                    _ => old(self).window_update,
                },
                ..*old(self)
            }),
    {
        if let DeliveryState::InFlight(in_flight) = self.window_update {
            if ack_set.contains(in_flight.packet.packet_nr) {
                self.window_update = DeliveryState::Requested(self.window_limit);
            }
        }
    }

    /// Hands out the next contiguous bytes. The connection window is
    /// released by as many bytes as are handed out, and the stream limit
    /// raised once less than half the desired window remains.
    pub fn poll_pop(&mut self, conn: &mut IncomingConnectionFlowController) -> (r: ReadPoll)
        requires
            old(self).wf(),
            old(conn).wf(),
            old(self).highest_offset - old(self).read_offset <= old(conn).acquired
                - old(conn).released,
        ensures
            final(self).wf(),
            final(conn).wf(),
            final(self).highest_offset == old(self).highest_offset,
            final(self).final_size == old(self).final_size,
            final(self).reset_code == old(self).reset_code,
            final(self).highest_offset - final(self).read_offset <= final(conn).acquired
                - final(conn).released,
            pop_outcome(*old(self), *final(self), *old(conn), *final(conn), r),
    {
        if let Some(code) = self.reset_code {
            return ReadPoll::Reset(code);
        }
        let total = self.buffer.len();
        let mut n: usize = 0;
        while n < total && self.filled[n]
            invariant
                total == self.buffer@.len(),
                self.filled@.len() == total,
                0 <= n <= total,
                forall|j: int| 0 <= j < n ==> self.filled@[j],
            decreases total - n,
        {
            n = n + 1;
        }
        if n == 0 {
            let at_end = match self.final_size {
                Some(f) => f == self.read_offset,
                None => false,
            };
            if at_end {
                return ReadPoll::EndOfStream;
            } else {
                return ReadPoll::Pending;
            }
        }
        let ghost old_held = self.held();
        let ghost old_buffer = self.buffer@;
        let ghost old_filled = self.filled@;
        let ghost ro = self.read_offset as int;
        let data = copy_range(&self.buffer, 0, n);
        self.buffer = copy_range(&self.buffer, n, total);
        self.filled = copy_range(&self.filled, n, total);
        self.read_offset = self.read_offset + n as u64;
        conn.release_window(n as u64);
        if self.window_limit - self.read_offset < self.desired_window / 2 {
            let target = self.read_offset + self.desired_window;
            let capped = if target > VARINT_MAX {
                VARINT_MAX
            } else {
                target
            };
            if capped > self.window_limit {
                self.window_limit = capped;
                self.window_update = DeliveryState::Requested(capped);
            }
        }
        assert forall|o: int| #[trigger] self.held().contains_key(o) == (old_held.contains_key(o)
            && o >= self.read_offset) by {
            if self.read_offset <= o < self.highest_offset {
                assert(self.filled@[o - self.read_offset] == old_filled[o - ro]);
            }
        }
        assert forall|o: int| #[trigger] self.held().contains_key(o) implies self.held()[o]
            == old_held[o] by {
            assert(self.buffer@[o - self.read_offset] == old_buffer[o - ro]);
        }
        assert(self.held() =~= Map::new(
            |o: int| old_held.contains_key(o) && o >= self.read_offset,
            |o: int| old_held[o],
        ));
        ReadPoll::Data(data)
    }
}

/// Data past the stream window is refused with a flow-control error, also
/// on a stream that the peer reset, and so (by `on_data`) changes nothing.
pub proof fn lemma_window_overrun_refused(
    stream: ReceiveStream,
    conn: IncomingConnectionFlowController,
    offset: u64,
    data: Seq<u8>,
    is_fin: bool,
)
    requires
        end_of(offset, data.len()) > stream.window_limit,
    ensures
        stream.data_error(conn, offset, data.len(), is_fin) == Some(StreamError::FlowControlError),
{
}

/// Two accepted deliveries leave the same bytes held and the same charge on
/// the connection in either order: the held offsets are those held before
/// together with both ranges, and the connection is charged up to the
/// highest end once.
pub proof fn lemma_on_data_order_independent(
    s0: ReceiveStream,
    a1: ReceiveStream,
    a2: ReceiveStream,
    b1: ReceiveStream,
    b2: ReceiveStream,
    c0: IncomingConnectionFlowController,
    ca1: IncomingConnectionFlowController,
    ca2: IncomingConnectionFlowController,
    cb1: IncomingConnectionFlowController,
    cb2: IncomingConnectionFlowController,
    e0: StreamEvents,
    ea1: StreamEvents,
    ea2: StreamEvents,
    eb1: StreamEvents,
    eb2: StreamEvents,
    offset1: u64,
    data1: Seq<u8>,
    offset2: u64,
    data2: Seq<u8>,
)
    requires
        data_outcome(s0, a1, c0, ca1, e0, ea1, offset1, data1, false, Ok(())),
        data_outcome(a1, a2, ca1, ca2, ea1, ea2, offset2, data2, false, Ok(())),
        data_outcome(s0, b1, c0, cb1, e0, eb1, offset2, data2, false, Ok(())),
        data_outcome(b1, b2, cb1, cb2, eb1, eb2, offset1, data1, false, Ok(())),
    ensures
        a2.held().dom() == b2.held().dom(),
        forall|o: int|
            a2.held().contains_key(o) <==> (s0.held().contains_key(o) || (s0.read_offset <= o
                && offset1 <= o < end_of(offset1, data1.len())) || (s0.read_offset <= o
                && offset2 <= o < end_of(offset2, data2.len()))),
        a2.highest_offset == b2.highest_offset,
        ca2.acquired == cb2.acquired,
        ca2.acquired - c0.acquired == a2.highest_offset - s0.highest_offset,
{
    assert(a2.held().dom() =~= b2.held().dom());
}

/// On a stream that has received nothing, `data` sent at offset zero within
/// both windows is accepted and handed out by one read; the next read waits;
/// a FIN without data at the end of `data` is then accepted, and the read
/// after it reports the end of the stream.
pub proof fn lemma_fill_read_then_end(
    s0: ReceiveStream,
    s1: ReceiveStream,
    s2: ReceiveStream,
    s3: ReceiveStream,
    s4: ReceiveStream,
    s5: ReceiveStream,
    c0: IncomingConnectionFlowController,
    c1: IncomingConnectionFlowController,
    c2: IncomingConnectionFlowController,
    c3: IncomingConnectionFlowController,
    c4: IncomingConnectionFlowController,
    c5: IncomingConnectionFlowController,
    e0: StreamEvents,
    e1: StreamEvents,
    e2: StreamEvents,
    e3: StreamEvents,
    data: Seq<u8>,
    accepted: Result<(), StreamError>,
    first: ReadPoll,
    second: ReadPoll,
    fin_accepted: Result<(), StreamError>,
    third: ReadPoll,
)
    requires
        s0.wf(),
        s0.read_offset == 0,
        s0.highest_offset == 0,
        s0.final_size.is_none(),
        s0.reset_code.is_none(),
        0 < data.len() <= s0.window_limit,
        data.len() <= c0.window_limit - c0.acquired,
        data_outcome(s0, s1, c0, c1, e0, e1, 0, data, false, accepted),
        s1.wf(),
        pop_outcome(s1, s2, c1, c2, first),
        s2.wf(),
        pop_outcome(s2, s3, c2, c3, second),
        s3.wf(),
        data_outcome(s3, s4, c3, c4, e2, e3, data.len() as u64, Seq::empty(), true, fin_accepted),
        s4.wf(),
        pop_outcome(s4, s5, c4, c5, third),
    ensures
        accepted.is_ok(),
        first matches ReadPoll::Data(d) && d@ == data,
        second is Pending,
        fin_accepted.is_ok(),
        third is EndOfStream,
{
    let n = data.len() as int;
    assert(s0.data_error(c0, 0, data.len(), false).is_none());
    assert(s1.read_offset == 0);
    assert(s1.highest_offset == n);
    let m = Map::new(
        |o: int| s0.held().contains_key(o) || (s0.read_offset <= o && 0 <= o < n),
        |o: int|
            if s0.held().contains_key(o) {
                s0.held()[o]
            } else {
                data[o - 0]
            },
    );
    assert(s1.held() == m);
    assert forall|j: int| 0 <= j < n implies #[trigger] s1.filled@[j] && s1.buffer@[j] == data[j] by {
        assert(!s0.held().contains_key(j));
        assert(m.contains_key(j));
        assert(m[j] == data[j]);
        assert(s1.held().contains_key(j));
        assert(s1.held()[j] == s1.buffer@[j - s1.read_offset]);
    }
    assert(s1.buffer@.len() == n);
    assert(s1.held().contains_key(0));
    assert(first is Data);
    let d = first->Data_0;
    let k = d@.len() as int;
    if k < n {
        assert(0 <= k < n);
        assert(s1.filled@[k]);
    }
    assert(k == n);
    assert forall|j: int| 0 <= j < n implies d@[j] == data[j] by {
        assert(s1.filled@[j]);
    }
    assert(d@ =~= data);
    assert(s2.read_offset == n);
    assert(s2.buffer@.len() == 0);
    assert(!s2.held().contains_key(n));
    assert(s3.read_offset == n && s3.highest_offset == n);
    assert(s3.data_error(c3, n as u64, 0, true).is_none());
    assert(s4.final_size == Some(n as u64));
    assert(s4.buffer@.len() == 0);
    assert(!s4.held().contains_key(n));
}

} // verus!
