//! The capabilities that the transmit and acknowledgement paths are handed:
//! a clock reading, a set of acknowledged or lost packet numbers, and a
//! packet under construction that frames are written into.

use vstd::prelude::*;
use crate::frame::{encoding_size, Frame};
use crate::packet_number::{PacketNumber, PacketNumberSpace};

verus! {

/// A point in time, in microseconds since an arbitrary origin.
#[derive(Clone, Copy, Debug, PartialEq, Eq, Structural)]
pub struct Timestamp {
    pub micros: u64,
}

/// Identifies a stream within a connection.
#[derive(Clone, Copy, Debug, PartialEq, Eq, Structural)]
pub struct StreamId {
    pub id: u64,
}

/// Returned when a frame could not be written into the current packet; the
/// caller retries at the next transmission opportunity.
#[derive(Clone, Copy, Debug, PartialEq, Eq, Structural)]
pub enum OnTransmitError {
    CouldNotWriteFrame,
}

/// A set of packet numbers that were acknowledged, or declared lost, in one
/// notification.
pub trait AckSet {
    spec fn spec_contains(&self, packet_number: PacketNumber) -> bool;

    fn contains(&self, packet_number: PacketNumber) -> (r: bool)
        ensures
            r == self.spec_contains(packet_number),
    ;
}

/// A single packet number is the set that holds just that packet number.
impl AckSet for PacketNumber {
    open spec fn spec_contains(&self, packet_number: PacketNumber) -> bool {
        *self == packet_number
    }

    fn contains(&self, packet_number: PacketNumber) -> (r: bool) {
        *self == packet_number
    }
}

/// An inclusive range of packet numbers of one space.
#[derive(Clone, Copy, Debug, PartialEq, Eq, Structural)]
pub struct PacketNumberRange {
    pub start: PacketNumber,
    pub end: PacketNumber,
}

impl AckSet for PacketNumberRange {
    open spec fn spec_contains(&self, packet_number: PacketNumber) -> bool {
        &&& packet_number.space == self.start.space
        &&& packet_number.space == self.end.space
        &&& self.start.value <= packet_number.value <= self.end.value
    }

    fn contains(&self, packet_number: PacketNumber) -> (r: bool) {
        packet_number.space == self.start.space && packet_number.space == self.end.space
            && self.start.value <= packet_number.value && packet_number.value
            <= self.end.value
    }
}

/// The packet that is being assembled for transmission.
pub trait WriteContext {
    /// The frames written into the packet so far.
    spec fn frames_written(&self) -> Seq<Frame>;

    /// The packet number the packet will carry.
    spec fn spec_packet_number(&self) -> PacketNumber;

    /// The time at which the packet is sent.
    spec fn spec_current_time(&self) -> Timestamp;

    /// How many more bytes of frames the packet can take.
    spec fn spec_remaining_capacity(&self) -> usize;

    /// Whether the packet, as it stands, takes a frame whose encoding has
    /// `size` bytes.
    spec fn spec_accepts(&self, size: nat) -> bool;

    fn current_time(&self) -> (r: Timestamp)
        ensures
            r == self.spec_current_time(),
    ;

    fn packet_number(&self) -> (r: PacketNumber)
        ensures
            r == self.spec_packet_number(),
    ;

    fn remaining_capacity(&self) -> (r: usize)
        ensures
            r == self.spec_remaining_capacity(),
    ;

    /// Appends a frame; returns the packet number it will be sent in, or
    /// `None`, writing nothing, when the packet does not take it.
    fn write_frame(&mut self, frame: Frame) -> (r: Option<PacketNumber>)
        ensures
            r.is_some() == old(self).spec_accepts(encoding_size(frame)),
            r matches Some(pn) ==> {
                &&& pn == old(self).spec_packet_number()
                &&& final(self).frames_written() == old(self).frames_written().push(frame)
            },
            r is None ==> final(self).frames_written() == old(self).frames_written(),
            final(self).spec_packet_number() == old(self).spec_packet_number(),
            final(self).spec_current_time() == old(self).spec_current_time(),
    ;
}

/// A packet under construction that collects the frames written into it.
pub struct PacketBuilder {
    pub packet_number: PacketNumber,
    pub time: Timestamp,
    pub capacity: usize,
    pub frames: Vec<Frame>,
}

impl PacketBuilder {
    /// An empty packet with room for `capacity` bytes of frames.
    pub fn new(space_value: u64, time: Timestamp, capacity: usize) -> (r: PacketBuilder)
        requires
            space_value <= crate::packet_number::PACKET_NUMBER_MAX,
        ensures
            r.packet_number == (PacketNumber {
                space: PacketNumberSpace::ApplicationData,
                value: space_value,
            }),
            r.time == time,
            r.capacity == capacity,
            r.frames@.len() == 0,
    {
        PacketBuilder {
            packet_number: PacketNumber { space: PacketNumberSpace::ApplicationData, value: space_value },
            time,
            capacity,
            frames: Vec::new(),
        }
    }

    /// Appends `frame` when its encoding fits in the remaining capacity.
    pub fn push_frame(&mut self, frame: Frame) -> (r: Option<PacketNumber>)
        ensures
            encoding_size(frame) <= old(self).capacity ==> {
                &&& r == Some(old(self).packet_number)
                &&& final(self).frames@ == old(self).frames@.push(frame)
                &&& final(self).capacity == old(self).capacity - encoding_size(frame)
            },
            encoding_size(frame) > old(self).capacity ==> {
                &&& r.is_none()
                &&& final(self).frames@ == old(self).frames@
                &&& final(self).capacity == old(self).capacity
            },
            final(self).packet_number == old(self).packet_number,
            final(self).time == old(self).time,
    {
        let size = match frame.encoding_size() {
            Some(size) => size,
            None => {
                return None;
            },
        };
        if size <= self.capacity {
            self.capacity = self.capacity - size;
            self.frames.push(frame);
            Some(self.packet_number)
        } else {
            None
        }
    }
}

impl WriteContext for PacketBuilder {
    open spec fn frames_written(&self) -> Seq<Frame> {
        self.frames@
    }

    open spec fn spec_packet_number(&self) -> PacketNumber {
        self.packet_number
    }

    open spec fn spec_current_time(&self) -> Timestamp {
        self.time
    }

    open spec fn spec_remaining_capacity(&self) -> usize {
        self.capacity
    }

    /// A frame fits when its encoding takes at most the remaining capacity.
    open spec fn spec_accepts(&self, size: nat) -> bool {
        size <= self.capacity
    }

    fn current_time(&self) -> (r: Timestamp) {
        self.time
    }

    fn packet_number(&self) -> (r: PacketNumber) {
        self.packet_number
    }

    fn remaining_capacity(&self) -> (r: usize) {
        self.capacity
    }

    fn write_frame(&mut self, frame: Frame) -> (r: Option<PacketNumber>) {
        self.push_frame(frame)
    }
}

} // verus!
