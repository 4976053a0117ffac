//! The sending part of a stream: buffers application bytes, writes them in
//! STREAM frames as packet room and flow-control credit allow, and makes
//! the bytes of lost packets eligible for sending again.

use vstd::prelude::*;
use crate::bytes::copy_range;
use crate::contexts::{AckSet, OnTransmitError, StreamId, WriteContext};
use crate::flow_control::OutgoingConnectionFlowController;
use crate::frame::{encoding_size, varint_encoding_size, varint_size, Frame, StreamFrame};
use crate::packet_number::PacketNumber;

verus! {

/// Where one buffered byte stands.
#[derive(Clone, Copy, Debug, PartialEq, Eq, Structural)]
pub enum ByteState {
    /// Never sent, or its packet was lost.
    Unsent,
    /// Sent in this packet, which is neither acknowledged nor lost yet.
    InFlight(PacketNumber),
    /// A packet carrying it was acknowledged.
    Acked,
}

/// The bytes the application wrote, from offset zero, each with its state.
pub struct SendStream {
    pub data: Vec<u8>,
    pub states: Vec<ByteState>,
    /// The highest offset ever sent. Credit was drawn up to here and is not
    /// returned when bytes are lost: resending them draws nothing.
    pub sent_offset: u64,
    /// The peer lets this stream send up to here.
    pub window_limit: u64,
    /// The most bytes the buffer takes.
    pub max_buffer_size: usize,
    /// The application will write no more: the stream ends after `data`.
    pub finished: bool,
    /// Where the end of the stream (FIN) stands once `finished`.
    pub fin: ByteState,
}

/// The states after an acknowledgement: bytes in flight in an acknowledged
/// packet are acknowledged.
pub open spec fn acked_states<A: AckSet>(states: Seq<ByteState>, ack_set: &A) -> Seq<ByteState> {
    states.map_values(
        |s: ByteState|
            match s {
                ByteState::InFlight(p) => if ack_set.spec_contains(p) {
                    ByteState::Acked
                } else {
                    s
                },
                _ => s,
            },
    )
}

/// The state of one byte, or of the FIN, after an acknowledgement.
pub open spec fn acked_state<A: AckSet>(s: ByteState, ack_set: &A) -> ByteState {
    match s {
        ByteState::InFlight(p) => if ack_set.spec_contains(p) {
            ByteState::Acked
        } else {
            s
        },
        _ => s,
    }
}

/// The state of one byte, or of the FIN, after a loss report.
pub open spec fn lost_state<A: AckSet>(s: ByteState, ack_set: &A) -> ByteState {
    match s {
        ByteState::InFlight(p) => if ack_set.spec_contains(p) {
            ByteState::Unsent
        } else {
            s
        },
        _ => s,
    }
}

/// The states after a loss report: bytes in flight in a lost packet are
/// unsent again.
pub open spec fn lost_states<A: AckSet>(states: Seq<ByteState>, ack_set: &A) -> Seq<ByteState> {
    states.map_values(
        |s: ByteState|
            match s {
                ByteState::InFlight(p) => if ack_set.spec_contains(p) {
                    ByteState::Unsent
                } else {
                    s
                },
                _ => s,
            },
    )
}

/// The credit for bytes past `sent_offset`: the least of what the stream
/// window and the connection leave.
pub open spec fn send_credit(stream: SendStream, conn: OutgoingConnectionFlowController) -> int {
    let stream_left = stream.window_limit - stream.sent_offset;
    let conn_left = conn.limit - conn.acquired;
    if stream_left < conn_left {
        stream_left
    } else {
        conn_left
    }
}

/// Whether the FIN waits to be sent.
pub open spec fn fin_pending(s: SendStream) -> bool {
    s.finished && s.fin == ByteState::Unsent
}

/// The first unsent byte at or after `i`, or the length when there is none.
pub open spec fn first_unsent(states: Seq<ByteState>, i: int) -> int
    decreases states.len() - i,
{
    if i >= states.len() {
        states.len() as int
    } else if states[i] == ByteState::Unsent {
        i
    } else {
        first_unsent(states, i + 1)
    }
}

/// The end of the run of unsent bytes that starts at `i`, stopping at
/// `limit`.
pub open spec fn unsent_run_end(states: Seq<ByteState>, i: int, limit: int) -> int
    decreases limit - i,
{
    if i >= limit || i >= states.len() || states[i] != ByteState::Unsent {
        i
    } else {
        unsent_run_end(states, i + 1, limit)
    }
}

/// What a transmission opportunity does with the sending part.
#[derive(Clone, Copy, Debug, PartialEq, Eq, Structural)]
pub enum SendPlan {
    /// Nothing waits to be sent.
    Idle,
    /// The packet has no room past a frame header.
    NoRoom,
    /// Bytes wait, but no credit is left for them.
    Blocked,
    /// Send the bytes `start..end` in one frame, with the FIN when `is_fin`.
    Frame { start: usize, end: usize, is_fin: bool },
}

/// The bytes a STREAM frame header takes at most: a type byte, the stream
/// id, the offset and a length no larger than the packet room.
pub open spec fn frame_header_size(stream_id: u64, offset: u64, capacity: usize) -> nat {
    1 + varint_size(stream_id) + varint_size(offset) + varint_size(capacity as u64)
}

pub open spec fn min3(a: int, b: int, c: int) -> int {
    if a <= b && a <= c {
        a
    } else if b <= c {
        b
    } else {
        c
    }
}

/// The frame a transmission opportunity writes into a packet with
/// `capacity` bytes of room, given `credit` bytes of flow-control credit
/// past the highest offset sent: it starts at the first unsent byte and
/// takes the unsent bytes after it, as many as the room after the header
/// and the credit allow; it carries the FIN when it ends a finished stream,
/// and is empty when only the FIN waits.
pub open spec fn send_plan(s: SendStream, stream_id: StreamId, capacity: usize, credit: int) -> SendPlan {
    let n = s.states@.len() as int;
    let start = first_unsent(s.states@, 0);
    let header = frame_header_size(stream_id.id, start as u64, capacity);
    if start == n && !fin_pending(s) {
        SendPlan::Idle
    } else if capacity <= header {
        SendPlan::NoRoom
    } else {
        let limit = min3(n, start + (capacity - header), s.sent_offset + credit);
        let end = unsent_run_end(s.states@, start, limit);
        if end == start && start < n {
            SendPlan::Blocked
        } else {
            SendPlan::Frame { start: start as usize, end: end as usize, is_fin: s.finished && end == n }
        }
    }
}

proof fn lemma_first_unsent(states: Seq<ByteState>, i: int)
    requires
        0 <= i <= states.len(),
    ensures
        i <= first_unsent(states, i) <= states.len(),
        forall|j: int| i <= j < first_unsent(states, i) ==> states[j] != ByteState::Unsent,
        first_unsent(states, i) < states.len() ==> states[first_unsent(states, i)]
            == ByteState::Unsent,
    decreases states.len() - i,
{
    if i < states.len() && states[i] != ByteState::Unsent {
        lemma_first_unsent(states, i + 1);
    }
}

proof fn lemma_unsent_run_end(states: Seq<ByteState>, i: int, limit: int)
    requires
        0 <= i,
    ensures
        i <= unsent_run_end(states, i, limit),
        unsent_run_end(states, i, limit) == i || (unsent_run_end(states, i, limit) <= limit
            && unsent_run_end(states, i, limit) <= states.len()),
        forall|j: int| i <= j < unsent_run_end(states, i, limit) ==> states[j] == ByteState::Unsent,
    decreases limit - i,
{
    if !(i >= limit || i >= states.len() || states[i] != ByteState::Unsent) {
        lemma_unsent_run_end(states, i + 1, limit);
    }
}

/// The encoded size of a STREAM frame that carries `len` bytes at `offset`
/// with its length field.
pub open spec fn stream_frame_size(stream_id: u64, offset: u64, len: nat) -> nat {
    1 + varint_size(stream_id) + varint_size(offset) + varint_size(len as u64) + len
}

/// Whether the sending part and the connection controller are unchanged.
pub open spec fn send_unchanged(
    pre: SendStream,
    post: SendStream,
    conn_pre: OutgoingConnectionFlowController,
    conn_post: OutgoingConnectionFlowController,
) -> bool {
    &&& post.data@ == pre.data@
    &&& post.states@ == pre.states@
    &&& post.sent_offset == pre.sent_offset
    &&& post.finished == pre.finished
    &&& post.fin == pre.fin
    &&& conn_post == conn_pre
}

/// How the sending part, the connection controller and the packet relate
/// before and after a transmission opportunity that returned `r`. The plan
/// for the packet's room and the credit decides: with nothing to send, or
/// no credit, nothing changes; with no room, `CouldNotWriteFrame` and
/// nothing changes; otherwise the planned frame goes into the packet when
/// the packet takes it, its bytes (and FIN) are then in flight in that
/// packet and the connection is charged for the bytes past the old highest
/// offset sent; when the packet does not take it, `CouldNotWriteFrame` and
/// nothing changes.
pub open spec fn send_outcome<W: WriteContext>(
    pre: SendStream,
    post: SendStream,
    conn_pre: OutgoingConnectionFlowController,
    conn_post: OutgoingConnectionFlowController,
    ctx_pre: W,
    ctx_post: W,
    stream_id: StreamId,
    r: Result<(), OnTransmitError>,
) -> bool {
    match send_plan(pre, stream_id, ctx_pre.spec_remaining_capacity(), send_credit(pre, conn_pre)) {
        SendPlan::Idle | SendPlan::Blocked => {
            &&& r == Ok::<(), OnTransmitError>(())
            &&& send_unchanged(pre, post, conn_pre, conn_post)
            &&& ctx_post == ctx_pre
        },
        SendPlan::NoRoom => {
            &&& r == Err::<(), OnTransmitError>(OnTransmitError::CouldNotWriteFrame)
            &&& send_unchanged(pre, post, conn_pre, conn_post)
            &&& ctx_post == ctx_pre
        },
        SendPlan::Frame { start, end, is_fin } => {
            let pn = ctx_pre.spec_packet_number();
            let written = ctx_post.frames_written();
            if ctx_pre.spec_accepts(stream_frame_size(stream_id.id, start as u64, (end - start) as nat)) {
                &&& r == Ok::<(), OnTransmitError>(())
                &&& written.len() == ctx_pre.frames_written().len() + 1
                &&& written.drop_last() == ctx_pre.frames_written()
                &&& written.last() matches Frame::Stream(f) && {
                    &&& f.stream_id == stream_id.id
                    &&& f.offset == start
                    &&& f.data@ == pre.data@.subrange(start as int, end as int)
                    &&& f.is_fin == is_fin
                    &&& !f.is_last_frame
                }
                &&& post.data@ == pre.data@
                &&& post.finished == pre.finished
                &&& post.states@ == Seq::new(
                    pre.states@.len(),
                    |i: int|
                        if start <= i < end {
                            ByteState::InFlight(pn)
                        } else {
                            pre.states@[i]
                        },
                )
                &&& post.fin == if is_fin {
                    ByteState::InFlight(pn)
                } else {
                    pre.fin
                }
                &&& post.sent_offset == if end > pre.sent_offset {
                    end as int
                } else {
                    pre.sent_offset as int
                }
                &&& conn_post.acquired == conn_pre.acquired + (post.sent_offset
                    - pre.sent_offset)
                &&& conn_post.limit == conn_pre.limit
            } else {
                &&& r == Err::<(), OnTransmitError>(OnTransmitError::CouldNotWriteFrame)
                &&& send_unchanged(pre, post, conn_pre, conn_post)
                &&& written == ctx_pre.frames_written()
            }
        },
    }
}

impl SendStream {
    pub open spec fn wf(&self) -> bool {
        &&& self.data@.len() == self.states@.len()
        &&& self.data@.len() <= self.max_buffer_size
        &&& self.sent_offset <= self.data@.len()
        &&& self.sent_offset <= self.window_limit
        &&& !self.finished ==> self.fin == ByteState::Unsent
        &&& forall|i: int| self.sent_offset <= i < self.states@.len() ==> self.states@[i]
            == ByteState::Unsent
    }

    pub fn new(initial_send_window: u64, max_buffer_size: usize) -> (r: SendStream)
        ensures
            r.wf(),
            r.data@.len() == 0,
            r.sent_offset == 0,
            r.window_limit == initial_send_window,
            r.max_buffer_size == max_buffer_size,
            !r.finished,
    {
        SendStream {
            data: Vec::new(),
            states: Vec::new(),
            sent_offset: 0,
            window_limit: initial_send_window,
            max_buffer_size,
            finished: false,
            fin: ByteState::Unsent,
        }
    }

    /// Ends the stream after the bytes written so far.
    pub fn finish(&mut self)
        requires
            old(self).wf(),
        ensures
            final(self).wf(),
            final(self).finished,
            final(self).fin == old(self).fin,
            final(self).data@ == old(self).data@,
            final(self).states@ == old(self).states@,
            final(self).sent_offset == old(self).sent_offset,
            final(self).window_limit == old(self).window_limit,
            final(self).max_buffer_size == old(self).max_buffer_size,
    {
        self.finished = true;
    }

    /// Appends `bytes` when the buffer has room for all of them; returns
    /// whether it did.
    pub fn push(&mut self, bytes: &Vec<u8>) -> (r: bool)
        requires
            old(self).wf(),
        ensures
            final(self).wf(),
            r == (!old(self).finished && old(self).data@.len() + bytes@.len()
                <= old(self).max_buffer_size),
            r ==> final(self).data@ == old(self).data@ + bytes@,
            r ==> final(self).states@ == old(self).states@ + Seq::new(
                bytes@.len(),
                |i: int| ByteState::Unsent,
            ),
            !r ==> final(self).data@ == old(self).data@ && final(self).states@
                == old(self).states@,
            final(self).sent_offset == old(self).sent_offset,
            final(self).window_limit == old(self).window_limit,
            final(self).max_buffer_size == old(self).max_buffer_size,
            final(self).finished == old(self).finished,
            final(self).fin == old(self).fin,
    {
        if self.finished || bytes.len() > self.max_buffer_size - self.data.len() {
            return false;
        }
        let ghost old_states = self.states@;
        let ghost old_data = self.data@;
        let mut i: usize = 0;
        while i < bytes.len()
            invariant
                0 <= i <= bytes@.len(),
                old_data.len() + bytes@.len() <= self.max_buffer_size,
                self.max_buffer_size == old(self).max_buffer_size,
                self.sent_offset == old(self).sent_offset,
                self.window_limit == old(self).window_limit,
                self.finished == old(self).finished,
                self.fin == old(self).fin,
                !self.finished,
                self.sent_offset <= old_data.len(),
                self.data@ == old_data + bytes@.subrange(0, i as int),
                self.states@ == old_states + Seq::new(i as nat, |j: int| ByteState::Unsent),
                forall|j: int| self.sent_offset <= j < old_states.len() ==> old_states[j]
                    == ByteState::Unsent,
            decreases bytes@.len() - i,
        {
            self.data.push(bytes[i]);
            self.states.push(ByteState::Unsent);
            i = i + 1;
            assert(self.states@ =~= old_states + Seq::new(i as nat, |j: int| ByteState::Unsent));
        }
        assert(bytes@.subrange(0, i as int) =~= bytes@);
        true
    }

    /// A MAX_STREAM_DATA frame from the peer; limits never shrink.
    pub fn on_max_stream_data(&mut self, maximum: u64)
        ensures
            final(self).window_limit == if maximum > old(self).window_limit {
                maximum
            } else {
                old(self).window_limit
            },
            final(self).data@ == old(self).data@,
            final(self).states@ == old(self).states@,
            final(self).sent_offset == old(self).sent_offset,
            final(self).max_buffer_size == old(self).max_buffer_size,
            final(self).finished == old(self).finished,
            final(self).fin == old(self).fin,
    {
        if maximum > self.window_limit {
            self.window_limit = maximum;
        }
    }

    /// Whether the stream ended and the peer acknowledged every byte and the
    /// FIN.
    pub fn is_all_acked(&self) -> (r: bool)
        requires
            self.wf(),
        ensures
            r == (self.finished && self.fin == ByteState::Acked && forall|i: int|
                0 <= i < self.states@.len() ==> self.states@[i] == ByteState::Acked),
    {
        if !self.finished || self.fin != ByteState::Acked {
            return false;
        }
        let mut i: usize = 0;
        while i < self.states.len()
            invariant
                0 <= i <= self.states@.len(),
                forall|j: int| 0 <= j < i ==> self.states@[j] == ByteState::Acked,
            decreases self.states@.len() - i,
        {
            if self.states[i] != ByteState::Acked {
                return false;
            }
            i = i + 1;
        }
        true
    }

    /// A planned frame starts at the first unsent byte and covers unsent
    /// bytes only, within the credit; an empty one carries a waiting FIN at
    /// the end of the stream.
    proof fn lemma_plan_bounds(&self, stream_id: StreamId, capacity: usize, credit: int)
        requires
            self.wf(),
            credit >= 0,
            send_plan(*self, stream_id, capacity, credit) is Frame,
        ensures
            ({
                let start = send_plan(*self, stream_id, capacity, credit)->Frame_start as int;
                let end = send_plan(*self, stream_id, capacity, credit)->Frame_end as int;
                &&& 0 <= start <= end <= self.states@.len()
                &&& forall|i: int| 0 <= i < start ==> self.states@[i] != ByteState::Unsent
                &&& forall|i: int| start <= i < end ==> self.states@[i] == ByteState::Unsent
                &&& start == end ==> (start == self.states@.len() && fin_pending(*self))
                &&& start <= self.sent_offset
                &&& end <= self.sent_offset + credit
            }),
    {
        let n = self.states@.len() as int;
        lemma_first_unsent(self.states@, 0);
        let start = first_unsent(self.states@, 0);
        let header = frame_header_size(stream_id.id, start as u64, capacity);
        let limit = min3(n, start + (capacity - header), self.sent_offset + credit);
        lemma_unsent_run_end(self.states@, start, limit);
        if start > self.sent_offset {
            assert(self.states@[self.sent_offset as int] == ByteState::Unsent);
        }
    }

    /// The plan for a packet with `capacity` bytes of room and `credit`
    /// bytes of flow-control credit past the highest offset sent.
    pub fn plan(&self, stream_id: StreamId, capacity: usize, credit: u64) -> (r: SendPlan)
        requires
            self.wf(),
        ensures
            r == send_plan(*self, stream_id, capacity, credit as int),
    {
        let n = self.states.len();
        let mut start: usize = 0;
        while start < n && self.states[start] != ByteState::Unsent
            invariant
                n == self.states@.len(),
                0 <= start <= n,
                first_unsent(self.states@, start as int) == first_unsent(self.states@, 0),
            decreases n - start,
        {
            start = start + 1;
        }
        assert(first_unsent(self.states@, start as int) == start);
        let fin_waits = self.finished && self.fin == ByteState::Unsent;
        if start == n && !fin_waits {
            return SendPlan::Idle;
        }
        let header = 1 + varint_encoding_size(stream_id.id) + varint_encoding_size(start as u64)
            + varint_encoding_size(capacity as u64);
        if capacity <= header {
            return SendPlan::NoRoom;
        }
        let room = capacity - header;
        let mut limit = n;
        if room < limit - start {
            limit = start + room;
        }
        if (limit as u64) > self.sent_offset && credit < limit as u64 - self.sent_offset {
            limit = (self.sent_offset + credit) as usize;
        }
        assert(limit == min3(n as int, start + room, self.sent_offset + credit));
        let mut end = start;
        while end < limit && self.states[end] == ByteState::Unsent
            invariant
                n == self.states@.len(),
                start <= end,
                limit <= n,
                end <= limit || end == start,
                unsent_run_end(self.states@, end as int, limit as int) == unsent_run_end(
                    self.states@,
                    start as int,
                    limit as int,
                ),
            decreases limit - end,
        {
            end = end + 1;
        }
        if end == start && start < n {
            return SendPlan::Blocked;
        }
        SendPlan::Frame { start, end, is_fin: self.finished && end == n }
    }

    /// Writes at most one STREAM frame: the one `plan` gives for the
    /// packet's room and the least of the stream and connection credit.
    /// Bytes resent after a loss draw no new credit.
    pub fn on_transmit<W: WriteContext>(
        &mut self,
        stream_id: StreamId,
        conn: &mut OutgoingConnectionFlowController,
        context: &mut W,
    ) -> (r: Result<(), OnTransmitError>)
        requires
            old(self).wf(),
            old(conn).wf(),
        ensures
            final(self).wf(),
            final(conn).wf(),
            final(self).window_limit == old(self).window_limit,
            final(self).max_buffer_size == old(self).max_buffer_size,
            send_outcome(
                *old(self),
                *final(self),
                *old(conn),
                *final(conn),
                *old(context),
                *final(context),
                stream_id,
                r,
            ),
    {
        let stream_left = self.window_limit - self.sent_offset;
        let conn_left = conn.available_credit();
        let credit = if stream_left < conn_left {
            stream_left
        } else {
            conn_left
        };
        let capacity = context.remaining_capacity();
        let (start, end, is_fin) = match self.plan(stream_id, capacity, credit) {
            SendPlan::Idle => {
                return Ok(());
            },
            SendPlan::Blocked => {
                return Ok(());
            },
            SendPlan::NoRoom => {
                return Err(OnTransmitError::CouldNotWriteFrame);
            },
            SendPlan::Frame { start, end, is_fin } => (start, end, is_fin),
        };
        proof {
            self.lemma_plan_bounds(stream_id, capacity, credit as int);
        }
        let n = self.states.len();
        let frame = Frame::Stream(
            StreamFrame {
                stream_id: stream_id.id,
                offset: start as u64,
                data: copy_range(&self.data, start, end),
                is_fin,
                is_last_frame: false,
            },
        );
        let ghost sent_frame = frame;
        assert(encoding_size(sent_frame) == stream_frame_size(
            stream_id.id,
            start as u64,
            (end - start) as nat,
        ));
        let pn = match context.write_frame(frame) {
            Some(pn) => pn,
            None => {
                return Err(OnTransmitError::CouldNotWriteFrame);
            },
        };
        assert(context.frames_written().drop_last() == old(context).frames_written());
        assert(context.frames_written().last() == sent_frame);
        let ghost old_states = self.states@;
        let mut i = start;
        while i < end
            invariant
                start <= i <= end <= n,
                n == self.states@.len(),
                self.states@.len() == old_states.len(),
                old_states == old(self).states@,
                old(self).wf(),
                self.data@ == old(self).data@,
                self.sent_offset == old(self).sent_offset,
                self.window_limit == old(self).window_limit,
                self.max_buffer_size == old(self).max_buffer_size,
                self.finished == old(self).finished,
                self.fin == old(self).fin,
                forall|j: int|
                    0 <= j < n ==> self.states@[j] == if start <= j < i {
                        ByteState::InFlight(pn)
                    } else {
                        old_states[j]
                    },
            decreases end - i,
        {
            self.states.set(i, ByteState::InFlight(pn));
            i = i + 1;
        }
        assert(self.states@ =~= Seq::new(
            old_states.len(),
            |j: int|
                if start <= j < end {
                    ByteState::InFlight(pn)
                } else {
                    old_states[j]
                },
        ));
        if end as u64 > self.sent_offset {
            let fresh = end as u64 - self.sent_offset;
            let _ = conn.acquire(fresh);
            self.sent_offset = end as u64;
        }
        if is_fin {
            self.fin = ByteState::InFlight(pn);
        }
        assert(self.wf());
        assert(conn.acquired == old(conn).acquired + (self.sent_offset - old(self).sent_offset));
        Ok(())
    }

    /// Bytes in flight in an acknowledged packet are settled.
    pub fn on_packet_ack<A: AckSet>(&mut self, ack_set: &A)
        requires
            old(self).wf(),
        ensures
            final(self).wf(),
            final(self).states@ == acked_states(old(self).states@, ack_set),
            final(self).fin == acked_state(old(self).fin, ack_set),
            final(self).finished == old(self).finished,
            final(self).data@ == old(self).data@,
            final(self).sent_offset == old(self).sent_offset,
            final(self).window_limit == old(self).window_limit,
            final(self).max_buffer_size == old(self).max_buffer_size,
    {
        let ghost old_states = self.states@;
        let mut i: usize = 0;
        while i < self.states.len()
            invariant
                0 <= i <= self.states@.len(),
                self.states@.len() == old_states.len(),
                self.data@.len() == old_states.len(),
                self.data@ == old(self).data@,
                self.sent_offset == old(self).sent_offset,
                self.window_limit == old(self).window_limit,
                self.max_buffer_size == old(self).max_buffer_size,
                self.finished == old(self).finished,
                self.fin == old(self).fin,
                old(self).wf(),
                old_states == old(self).states@,
                forall|j: int|
                    0 <= j < old_states.len() ==> self.states@[j] == if j < i {
                        acked_states(old_states, ack_set)[j]
                    } else {
                        old_states[j]
                    },
            decreases self.states@.len() - i,
        {
            if let ByteState::InFlight(p) = self.states[i] {
                if ack_set.contains(p) {
                    self.states.set(i, ByteState::Acked);
                }
            }
            i = i + 1;
        }
        assert(self.states@ =~= acked_states(old_states, ack_set));
        if let ByteState::InFlight(p) = self.fin {
            if ack_set.contains(p) {
                self.fin = ByteState::Acked;
            }
        }
    }

    /// Bytes in flight in a lost packet become eligible for sending again.
    pub fn on_packet_loss<A: AckSet>(&mut self, ack_set: &A)
        requires
            old(self).wf(),
        ensures
            final(self).wf(),
            final(self).states@ == lost_states(old(self).states@, ack_set),
            final(self).fin == lost_state(old(self).fin, ack_set),
            final(self).finished == old(self).finished,
            final(self).data@ == old(self).data@,
            final(self).sent_offset == old(self).sent_offset,
            final(self).window_limit == old(self).window_limit,
            final(self).max_buffer_size == old(self).max_buffer_size,
    {
        let ghost old_states = self.states@;
        let mut i: usize = 0;
        while i < self.states.len()
            invariant
                0 <= i <= self.states@.len(),
                self.states@.len() == old_states.len(),
                self.data@.len() == old_states.len(),
                self.data@ == old(self).data@,
                self.sent_offset == old(self).sent_offset,
                self.window_limit == old(self).window_limit,
                self.max_buffer_size == old(self).max_buffer_size,
                self.finished == old(self).finished,
                self.fin == old(self).fin,
                old(self).wf(),
                old_states == old(self).states@,
                forall|j: int|
                    0 <= j < old_states.len() ==> self.states@[j] == if j < i {
                        lost_states(old_states, ack_set)[j]
                    } else {
                        old_states[j]
                    },
            decreases self.states@.len() - i,
        {
            if let ByteState::InFlight(p) = self.states[i] {
                if ack_set.contains(p) {
                    self.states.set(i, ByteState::Unsent);
                }
            }
            i = i + 1;
        }
        assert(self.states@ =~= lost_states(old_states, ack_set));
        if let ByteState::InFlight(p) = self.fin {
            if ack_set.contains(p) {
                self.fin = ByteState::Unsent;
            }
        }
    }

    /// Whether some byte waits to be sent.
    pub fn has_unsent(&self) -> (r: bool)
        ensures
            r == exists|i: int| 0 <= i < self.states@.len() && self.states@[i] == ByteState::Unsent,
    {
        let mut i: usize = 0;
        while i < self.states.len()
            invariant
                0 <= i <= self.states@.len(),
                forall|j: int| 0 <= j < i ==> self.states@[j] != ByteState::Unsent,
            decreases self.states@.len() - i,
        {
            if self.states[i] == ByteState::Unsent {
                return true;
            }
            i = i + 1;
        }
        false
    }

    /// Whether some byte waits for an acknowledgement or a loss report.
    pub fn has_in_flight(&self) -> (r: bool)
        ensures
            r == exists|i: int| 0 <= i < self.states@.len() && self.states@[i] is InFlight,
    {
        let mut i: usize = 0;
        while i < self.states.len()
            invariant
                0 <= i <= self.states@.len(),
                forall|j: int| 0 <= j < i ==> !(self.states@[j] is InFlight),
            decreases self.states@.len() - i,
        {
            if let ByteState::InFlight(_) = self.states[i] {
                return true;
            }
            i = i + 1;
        }
        false
    }
}

} // verus!
