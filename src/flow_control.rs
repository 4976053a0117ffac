//! Connection-level flow control: one controller per direction, shared by
//! every stream of the connection.

use vstd::prelude::*;
use crate::contexts::{AckSet, OnTransmitError, WriteContext};
use crate::frame::{encoding_size, Frame, MaxData};
use crate::once_sync::{DeliveryState, InFlightDelivery, InflightPacketInfo};

verus! {

/// The largest value a variable-length integer holds, and so the largest
/// flow-control limit.
pub const VARINT_MAX: u64 = 0x3fff_ffff_ffff_ffff;

/// The largest receive window: received bytes are buffered in memory.
pub const MAX_RECEIVE_WINDOW: u64 = 0xffff_ffff;

/// The peer sent past the limit it was given.
#[derive(Clone, Copy, Debug, PartialEq, Eq, Structural)]
pub struct FlowControlError;

/// Limits how many bytes the peer may send over all streams together.
///
/// `acquired` counts, for every stream, the highest offset received so far,
/// so bytes received twice are charged once; `released` counts the bytes
/// the application read. Once fewer than half of `desired_window` bytes
/// remain between `released` and the limit, the limit moves to `released +
/// desired_window` and the new limit is announced in a MAX_DATA frame that
/// is sent until acknowledged.
pub struct IncomingConnectionFlowController {
    pub window_limit: u64,
    pub acquired: u64,
    pub released: u64,
    pub desired_window: u64,
    pub announcement: DeliveryState<u64>,
}

/// The limit after the application read up to `released`.
pub open spec fn raised_limit(window_limit: u64, released: u64, desired_window: u64) -> u64 {
    if (window_limit - released) < desired_window / 2 {
        let target = released + desired_window;
        let capped = if target > VARINT_MAX {
            VARINT_MAX as int
        } else {
            target
        };
        if capped > window_limit {
            capped as u64
        } else {
            window_limit
        }
    } else {
        window_limit
    }
}

impl IncomingConnectionFlowController {
    pub open spec fn wf(&self) -> bool {
        &&& self.released <= self.acquired <= self.window_limit <= VARINT_MAX
        &&& self.desired_window <= MAX_RECEIVE_WINDOW
    }

    pub fn new(initial_window: u64, desired_window: u64) -> (r: Self)
        requires
            initial_window <= VARINT_MAX,
            desired_window <= MAX_RECEIVE_WINDOW,
        ensures
            r.wf(),
            r.window_limit == initial_window,
            r.acquired == 0,
            r.released == 0,
            r.desired_window == desired_window,
            r.announcement == DeliveryState::<u64>::NotRequested,
    {
        IncomingConnectionFlowController {
            window_limit: initial_window,
            acquired: 0,
            released: 0,
            desired_window,
            announcement: DeliveryState::NotRequested,
        }
    }

    /// The bytes the peer may still send.
    pub fn available_window(&self) -> (r: u64)
        requires
            self.wf(),
        ensures
            r == self.window_limit - self.acquired,
    {
        self.window_limit - self.acquired
    }

    /// Charges `amount` newly received bytes; fails, changing nothing, when
    /// they exceed the limit.
    pub fn acquire_window(&mut self, amount: u64) -> (r: Result<(), FlowControlError>)
        requires
            old(self).wf(),
        ensures
            final(self).wf(),
            amount <= old(self).window_limit - old(self).acquired ==> {
                &&& r.is_ok()
                &&& *final(self) == (IncomingConnectionFlowController {
                    acquired: (old(self).acquired + amount) as u64,
                    ..*old(self)
                })
            },
            amount > old(self).window_limit - old(self).acquired ==> {
                &&& r == Err::<(), FlowControlError>(FlowControlError)
                &&& *final(self) == *old(self)
            },
    {
        if amount > self.window_limit - self.acquired {
            return Err(FlowControlError);
        }
        self.acquired = self.acquired + amount;
        Ok(())
    }

    /// Records that the application read `amount` bytes, and raises and
    /// announces the limit when the remaining window fell below half the
    /// desired one.
    pub fn release_window(&mut self, amount: u64)
        requires
            old(self).wf(),
            old(self).released + amount <= old(self).acquired,
        ensures
            final(self).wf(),
            final(self).released == old(self).released + amount,
            final(self).acquired == old(self).acquired,
            final(self).desired_window == old(self).desired_window,
            final(self).window_limit == raised_limit(
                old(self).window_limit,
                final(self).released,
                old(self).desired_window,
            ),
            final(self).window_limit > old(self).window_limit ==> final(self).announcement
                == DeliveryState::Requested(final(self).window_limit),
            final(self).window_limit == old(self).window_limit ==> final(self).announcement
                == old(self).announcement,
    {
        self.released = self.released + amount;
        if self.window_limit - self.released < self.desired_window / 2 {
            let target = self.released + self.desired_window;
            let capped = if target > VARINT_MAX {
                VARINT_MAX
            } else {
                target
            };
            if capped > self.window_limit {
                self.window_limit = capped;
                self.announcement = DeliveryState::Requested(capped);
            }
        }
    }

    /// Writes a MAX_DATA frame with the announced limit when an announcement
    /// waits for transmission; it is then in flight in the packet, sent at
    /// the packet's time. When the packet does not take the frame,
    /// `CouldNotWriteFrame` and nothing changes.
    pub fn on_transmit<W: WriteContext>(&mut self, context: &mut W) -> (r: Result<
        (),
        OnTransmitError,
    >)
        requires
            old(self).wf(),
        ensures
            final(self).wf(),
            final(self).window_limit == old(self).window_limit,
            final(self).acquired == old(self).acquired,
            final(self).released == old(self).released,
            final(self).desired_window == old(self).desired_window,
            old(self).announcement matches DeliveryState::Requested(v) ==> {
                let frame = Frame::MaxData(MaxData { maximum_data: v });
                if old(context).spec_accepts(encoding_size(frame)) {
                    &&& r == Ok::<(), OnTransmitError>(())
                    &&& final(self).announcement == DeliveryState::InFlight(
                        InFlightDelivery {
                            packet: InflightPacketInfo {
                                packet_nr: old(context).spec_packet_number(),
                                timestamp: old(context).spec_current_time(),
                            },
                            value: v,
                        },
                    )
                    &&& final(context).frames_written() == old(context).frames_written().push(
                        frame,
                    )
                } else {
                    &&& r == Err::<(), OnTransmitError>(OnTransmitError::CouldNotWriteFrame)
                    &&& final(self).announcement == old(self).announcement
                    &&& final(context).frames_written() == old(context).frames_written()
                }
            },
            !(old(self).announcement is Requested) ==> {
                &&& r == Ok::<(), OnTransmitError>(())
                &&& final(self).announcement == old(self).announcement
                &&& *final(context) == *old(context)
            },
    {
        if let DeliveryState::Requested(maximum_data) = self.announcement {
            match context.write_frame(Frame::MaxData(MaxData { maximum_data })) {
                Some(packet_nr) => {
                    let timestamp = context.current_time();
                    self.announcement = DeliveryState::InFlight(
                        InFlightDelivery {
                            packet: InflightPacketInfo { packet_nr, timestamp },
                            value: maximum_data,
                        },
                    );
                    Ok(())
                },
                None => Err(OnTransmitError::CouldNotWriteFrame),
            }
        } else {
            Ok(())
        }
    }

    /// An acknowledged announcement is settled.
    pub fn on_packet_ack<A: AckSet>(&mut self, ack_set: &A)
        requires
            old(self).wf(),
        ensures
            *final(self) == (IncomingConnectionFlowController {
                announcement: crate::once_sync::acked(old(self).announcement, ack_set),
                ..*old(self)
            }),
    {
        if let DeliveryState::InFlight(in_flight) = self.announcement {
            if ack_set.contains(in_flight.packet.packet_nr) {
                self.announcement = DeliveryState::Delivered(in_flight.value);
            }
        }
    }

    /// A lost announcement is sent again, carrying the current limit.
    pub fn on_packet_loss<A: AckSet>(&mut self, ack_set: &A)
        requires
            old(self).wf(),
        ensures
            *final(self) == (IncomingConnectionFlowController {
                announcement: match old(self).announcement {
                    DeliveryState::InFlight(f) => if ack_set.spec_contains(f.packet.packet_nr) {
                        DeliveryState::Requested(old(self).window_limit)
                    } else {
                        old(self).announcement
                    },
                    _ => old(self).announcement,
                },
                ..*old(self)
            }),
    {
        if let DeliveryState::InFlight(in_flight) = self.announcement {
            if ack_set.contains(in_flight.packet.packet_nr) {
                self.announcement = DeliveryState::Requested(self.window_limit);
            }
        }
    }
}

/// Limits how many bytes this endpoint may send over all streams together.
/// Streams draw credit first come, first served; credit spent on bytes that
/// are later lost is not returned.
#[derive(Clone, Copy, Debug, PartialEq, Eq, Structural)]
pub struct OutgoingConnectionFlowController {
    pub limit: u64,
    pub acquired: u64,
}

impl OutgoingConnectionFlowController {
    pub open spec fn wf(&self) -> bool {
        self.acquired <= self.limit
    }

    pub fn new(initial_window: u64) -> (r: Self)
        ensures
            r.wf(),
            r.limit == initial_window,
            r.acquired == 0,
    {
        OutgoingConnectionFlowController { limit: initial_window, acquired: 0 }
    }

    pub fn available_credit(&self) -> (r: u64)
        requires
            self.wf(),
        ensures
            r == self.limit - self.acquired,
    {
        self.limit - self.acquired
    }

    /// Draws up to `desired` bytes of credit; returns how many were granted.
    pub fn acquire(&mut self, desired: u64) -> (r: u64)
        requires
            old(self).wf(),
        ensures
            final(self).wf(),
            r == if desired <= old(self).limit - old(self).acquired {
                desired
            } else {
                (old(self).limit - old(self).acquired) as u64
            },
            final(self).acquired == old(self).acquired + r,
            final(self).limit == old(self).limit,
    {
        let available = self.limit - self.acquired;
        let granted = if desired <= available {
            desired
        } else {
            available
        };
        self.acquired = self.acquired + granted;
        granted
    }

    /// A MAX_DATA frame from the peer; limits never shrink.
    pub fn on_max_data(&mut self, maximum_data: u64)
        requires
            old(self).wf(),
        ensures
            final(self).wf(),
            final(self).acquired == old(self).acquired,
            final(self).limit == if maximum_data > old(self).limit {
                maximum_data
            } else {
                old(self).limit
            },
    {
        if maximum_data > self.limit {
            self.limit = maximum_data;
        }
    }
}

} // verus!
