//! Synchronizes a value exactly once towards the peer: the value is sent,
//! resent whenever the packet carrying it is lost, and settled once that
//! packet is acknowledged. The value cannot be replaced once requested.

use vstd::prelude::*;
use crate::contexts::{AckSet, OnTransmitError, StreamId, Timestamp, WriteContext};
use crate::frame::{encoding_size, Frame};
use crate::packet_number::PacketNumber;

verus! {

/// The packet that carries a value, and when it was sent.
#[derive(Clone, Copy, Debug, PartialEq, Eq, Structural)]
pub struct InflightPacketInfo {
    pub packet_nr: PacketNumber,
    pub timestamp: Timestamp,
}

/// A value that was written into a packet that is not yet acknowledged.
#[derive(Clone, Copy, Debug, PartialEq, Eq)]
pub struct InFlightDelivery<T> {
    pub packet: InflightPacketInfo,
    pub value: T,
}

/// Where the delivery of one value stands.
#[derive(Clone, Copy, Debug, PartialEq, Eq)]
pub enum DeliveryState<T> {
    /// No value was chosen yet.
    NotRequested,
    /// The value waits for a transmission opportunity.
    Requested(T),
    /// The value travels in a packet; at most one such packet is tracked.
    InFlight(InFlightDelivery<T>),
    /// The peer acknowledged a packet carrying the value.
    Delivered(T),
    /// Delivery was abandoned, with the value if one had been chosen.
    Cancelled(Option<T>),
}

/// The state after a request to deliver `value`: only a state without a
/// value takes it.
pub open spec fn requested<T>(s: DeliveryState<T>, value: T) -> DeliveryState<T> {
    match s {
        DeliveryState::NotRequested => DeliveryState::Requested(value),
        _ => s,
    }
}

/// The state after cancellation: every state but `Delivered` ends as
/// `Cancelled`, keeping the value it held.
pub open spec fn cancelled<T>(s: DeliveryState<T>) -> DeliveryState<T> {
    match s {
        DeliveryState::NotRequested => DeliveryState::Cancelled(None),
        DeliveryState::Requested(v) => DeliveryState::Cancelled(Some(v)),
        DeliveryState::InFlight(f) => DeliveryState::Cancelled(Some(f.value)),
        DeliveryState::Delivered(v) => DeliveryState::Delivered(v),
        DeliveryState::Cancelled(v) => DeliveryState::Cancelled(v),
    }
}

/// The state after an acknowledgement: a value in flight in one of the
/// acknowledged packets is delivered; anything else is a stale notification.
pub open spec fn acked<T, A: AckSet>(s: DeliveryState<T>, ack_set: &A) -> DeliveryState<T> {
    match s {
        DeliveryState::InFlight(f) => if ack_set.spec_contains(f.packet.packet_nr) {
            DeliveryState::Delivered(f.value)
        } else {
            s
        },
        _ => s,
    }
}

/// The state after a loss report: a value in flight in one of the lost
/// packets is requested again.
pub open spec fn lost<T, A: AckSet>(s: DeliveryState<T>, ack_set: &A) -> DeliveryState<T> {
    match s {
        DeliveryState::InFlight(f) => if ack_set.spec_contains(f.packet.packet_nr) {
            DeliveryState::Requested(f.value)
        } else {
            s
        },
        _ => s,
    }
}

/// The state after a transmission opportunity on which the writer reported
/// `written`: a requested value moves in flight in the packet it was
/// written to; everything else stays.
pub open spec fn transmitted<T>(s: DeliveryState<T>, written: Option<InflightPacketInfo>) -> DeliveryState<T> {
    match s {
        DeliveryState::Requested(v) => match written {
            Some(p) => DeliveryState::InFlight(InFlightDelivery { packet: p, value: v }),
            None => s,
        },
        _ => s,
    }
}

impl<T: Copy> DeliveryState<T> {
    pub fn is_requested(&self) -> (r: bool)
        ensures
            r == self is Requested,
    {
        match self {
            DeliveryState::Requested(_) => true,
            _ => false,
        }
    }

    pub fn is_inflight(&self) -> (r: bool)
        ensures
            r == self is InFlight,
    {
        match self {
            DeliveryState::InFlight(_) => true,
            _ => false,
        }
    }

    pub fn is_delivered(&self) -> (r: bool)
        ensures
            r == self is Delivered,
    {
        match self {
            DeliveryState::Delivered(_) => true,
            _ => false,
        }
    }

    pub fn is_cancelled(&self) -> (r: bool)
        ensures
            r == self is Cancelled,
    {
        match self {
            DeliveryState::Cancelled(_) => true,
            _ => false,
        }
    }

    /// Abandons the delivery unless it already succeeded.
    pub fn cancel(&mut self)
        ensures
            *final(self) == cancelled(*old(self)),
    {
        let next = match *self {
            DeliveryState::NotRequested => DeliveryState::Cancelled(None),
            DeliveryState::Requested(v) => DeliveryState::Cancelled(Some(v)),
            DeliveryState::InFlight(f) => DeliveryState::Cancelled(Some(f.value)),
            DeliveryState::Delivered(v) => DeliveryState::Delivered(v),
            DeliveryState::Cancelled(v) => DeliveryState::Cancelled(v),
        };
        *self = next;
    }
}

/// Whether a component wants a transmission opportunity, and whether it
/// waits for acknowledgement or loss notifications.
#[derive(Clone, Copy, Debug, PartialEq, Eq, Structural, Default)]
pub struct FrameExchangeInterests {
    pub transmission: bool,
    pub delivery_notifications: bool,
}

impl FrameExchangeInterests {
    /// Combines the interests of two components: each flag is set where
    /// either sets it.
    pub fn merge(self, other: FrameExchangeInterests) -> (r: FrameExchangeInterests)
        ensures
            r.transmission == (self.transmission || other.transmission),
            r.delivery_notifications == (self.delivery_notifications
                || other.delivery_notifications),
    {
        FrameExchangeInterests {
            transmission: self.transmission || other.transmission,
            delivery_notifications: self.delivery_notifications || other.delivery_notifications,
        }
    }
}

/// Writes a value as a frame into an outgoing packet.
pub trait ValueToFrameWriter<T>: Default {
    /// The frame that carries `value` for the stream `stream_id`.
    spec fn spec_frame(value: T, stream_id: StreamId) -> Frame;

    /// Writes the frame of `value` into `context`. Returns the packet number
    /// it was written to, or `None`, writing nothing, when the packet does
    /// not take it.
    fn write_value_as_frame<W: WriteContext>(
        &self,
        value: T,
        stream_id: StreamId,
        context: &mut W,
    ) -> (r: Option<PacketNumber>)
        ensures
            r.is_some() == old(context).spec_accepts(
                encoding_size(Self::spec_frame(value, stream_id)),
            ),
            r matches Some(pn) ==> {
                &&& pn == old(context).spec_packet_number()
                &&& final(context).frames_written() == old(context).frames_written().push(
                    Self::spec_frame(value, stream_id),
                )
            },
            r is None ==> final(context).frames_written() == old(context).frames_written(),
            final(context).spec_packet_number() == old(context).spec_packet_number(),
            final(context).spec_current_time() == old(context).spec_current_time(),
    ;
}

/// How a delivery state and the packet relate before and after a
/// transmission opportunity that returned `r`: a requested value goes into
/// the packet as the frame `S` makes of it, and is then in flight in that
/// packet, sent at the packet's time; when the packet does not take the
/// frame, `CouldNotWriteFrame` and nothing changes. In any other state
/// nothing changes and the packet is untouched.
pub open spec fn sync_transmit_outcome<T, S: ValueToFrameWriter<T>, W: WriteContext>(
    pre: DeliveryState<T>,
    post: DeliveryState<T>,
    ctx_pre: W,
    ctx_post: W,
    stream_id: StreamId,
    r: Result<(), OnTransmitError>,
) -> bool {
    match pre {
        DeliveryState::Requested(v) => {
            let frame = S::spec_frame(v, stream_id);
            if ctx_pre.spec_accepts(encoding_size(frame)) {
                &&& r == Ok::<(), OnTransmitError>(())
                &&& post == DeliveryState::InFlight(
                    InFlightDelivery {
                        packet: InflightPacketInfo {
                            packet_nr: ctx_pre.spec_packet_number(),
                            timestamp: ctx_pre.spec_current_time(),
                        },
                        value: v,
                    },
                )
                &&& ctx_post.frames_written() == ctx_pre.frames_written().push(frame)
            } else {
                &&& r == Err::<(), OnTransmitError>(OnTransmitError::CouldNotWriteFrame)
                &&& post == pre
                &&& ctx_post.frames_written() == ctx_pre.frames_written()
            }
        },
        _ => {
            &&& post == pre
            &&& r == Ok::<(), OnTransmitError>(())
            &&& ctx_post == ctx_pre
        },
    }
}

/// Synchronizes a value of type `T` exactly once towards the peer, writing
/// it into frames with `S`. Lost transmissions are repeated; the value
/// cannot be replaced by a newer one.
#[derive(Debug)]
pub struct OnceSync<T, S> {
    delivery: DeliveryState<T>,
    writer: S,
}

impl<T, S> View for OnceSync<T, S> {
    type V = DeliveryState<T>;

    closed spec fn view(&self) -> DeliveryState<T> {
        self.delivery
    }
}

impl<T: Copy, S: ValueToFrameWriter<T>> OnceSync<T, S> {
    pub fn new() -> (r: Self)
        ensures
            r@ == DeliveryState::<T>::NotRequested,
    {
        OnceSync { delivery: DeliveryState::NotRequested, writer: S::default() }
    }

    /// Returns `true` once the peer acknowledged a packet carrying the value.
    pub fn is_delivered(&self) -> (r: bool)
        ensures
            r == self@ is Delivered,
    {
        self.delivery.is_delivered()
    }

    /// Returns `true` while no value was requested.
    pub fn is_not_requested(&self) -> (r: bool)
        ensures
            r == self@ is NotRequested,
    {
        match self.delivery {
            DeliveryState::NotRequested => true,
            _ => false,
        }
    }

    /// Returns `true` if the synchronization was cancelled.
    pub fn is_cancelled(&self) -> (r: bool)
        ensures
            r == self@ is Cancelled,
    {
        self.delivery.is_cancelled()
    }

    /// Requests delivery of `value`; ignored once a value was chosen or the
    /// synchronization was cancelled.
    pub fn request_delivery(&mut self, value: T)
        ensures
            final(self)@ == requested(old(self)@, value),
    {
        if let DeliveryState::NotRequested = self.delivery {
            self.delivery = DeliveryState::Requested(value);
        }
    }

    /// Stops synchronizing the value to the peer.
    pub fn stop_sync(&mut self)
        ensures
            final(self)@ == cancelled(old(self)@),
    {
        self.delivery.cancel();
    }

    /// Called when packets were acknowledged.
    pub fn on_packet_ack<A: AckSet>(&mut self, ack_set: &A)
        ensures
            final(self)@ == acked(old(self)@, ack_set),
    {
        if let DeliveryState::InFlight(in_flight) = self.delivery {
            if ack_set.contains(in_flight.packet.packet_nr) {
                self.delivery = DeliveryState::Delivered(in_flight.value);
            }
        }
    }

    /// Called when packets were declared lost; a value that travelled in one
    /// of them is sent again at the next opportunity.
    pub fn on_packet_loss<A: AckSet>(&mut self, ack_set: &A)
        ensures
            final(self)@ == lost(old(self)@, ack_set),
    {
        if let DeliveryState::InFlight(in_flight) = self.delivery {
            if ack_set.contains(in_flight.packet.packet_nr) {
                self.delivery = DeliveryState::Requested(in_flight.value);
            }
        }
    }

    /// Records the outcome of writing the requested value: the packet it
    /// went into, or `None` when it did not fit, which is reported as an
    /// error so that the caller retries.
    pub fn on_frame_written(&mut self, written: Option<InflightPacketInfo>) -> (r: Result<
        (),
        OnTransmitError,
    >)
        ensures
            final(self)@ == transmitted(old(self)@, written),
            r == (if old(self)@ is Requested && written.is_none() {
                Err(OnTransmitError::CouldNotWriteFrame)
            } else {
                Ok(())
            }),
    {
        if let DeliveryState::Requested(value) = self.delivery {
            match written {
                Some(packet) => {
                    self.delivery = DeliveryState::InFlight(InFlightDelivery { packet, value });
                    Ok(())
                },
                None => Err(OnTransmitError::CouldNotWriteFrame),
            }
        } else {
            Ok(())
        }
    }

    /// Writes the value into `context` if it waits for transmission: the
    /// frame `S` makes of it goes into the packet, and the value is then in
    /// flight in that packet, sent at the packet's time. When the packet does
    /// not take the frame, nothing changes and `CouldNotWriteFrame` is
    /// returned. A value that is not requested leaves `context` untouched.
    pub fn on_transmit<W: WriteContext>(&mut self, stream_id: StreamId, context: &mut W) -> (r:
        Result<(), OnTransmitError>)
        ensures
            sync_transmit_outcome::<T, S, W>(
                old(self)@,
                final(self)@,
                *old(context),
                *final(context),
                stream_id,
                r,
            ),
    {
        if let DeliveryState::Requested(value) = self.delivery {
            let written = match self.writer.write_value_as_frame(value, stream_id, context) {
                Some(packet_nr) => Some(
                    InflightPacketInfo { packet_nr, timestamp: context.current_time() },
                ),
                None => None,
            };
            self.on_frame_written(written)
        } else {
            let r = self.on_frame_written(None);
            r
        }
    }

    /// Wants a transmission while the value is requested and notifications
    /// while it is in flight.
    pub fn frame_exchange_interests(&self) -> (r: FrameExchangeInterests)
        ensures
            r.transmission == self@ is Requested,
            r.delivery_notifications == self@ is InFlight,
    {
        FrameExchangeInterests {
            transmission: self.delivery.is_requested(),
            delivery_notifications: self.delivery.is_inflight(),
        }
    }
}

/// A second acknowledgement of the same packets changes nothing: the state
/// reached by the first one is kept, and a value in flight in one of those
/// packets stays delivered.
pub proof fn lemma_ack_idempotent<T, A: AckSet>(s: DeliveryState<T>, ack_set: &A)
    ensures
        acked(acked(s, ack_set), ack_set) == acked(s, ack_set),
        s is InFlight && ack_set.spec_contains(s->InFlight_0.packet.packet_nr) ==> acked(
            acked(s, ack_set),
            ack_set,
        ) == DeliveryState::Delivered(s->InFlight_0.value),
{
}

/// A delivery that is requested and then stopped before any transmission
/// never asks for one: the state is `Cancelled`, which is not `Requested`,
/// so `on_transmit` writes nothing, and acknowledgements, losses and later
/// requests leave it as it is.
pub proof fn lemma_stop_before_transmit<T, A: AckSet>(value: T, ack_set: &A, other: T)
    ensures
        ({
            let s = cancelled(requested(DeliveryState::<T>::NotRequested, value));
            &&& s == DeliveryState::Cancelled(Some(value))
            &&& !(s is Requested)
            &&& transmitted(s, None) == s
            &&& forall|w: Option<InflightPacketInfo>| transmitted(s, w) == s
            &&& acked(s, ack_set) == s
            &&& lost(s, ack_set) == s
            &&& requested(s, other) == s
        }),
{
}

} // verus!
