//! Packet numbers, their packet-number spaces, and the truncated form that
//! travels on the wire.

use vstd::prelude::*;

verus! {

/// The largest packet number: packet numbers are 62-bit values.
pub const PACKET_NUMBER_MAX: u64 = 0x3fff_ffff_ffff_ffff;

/// The space a packet number was allocated in.
#[derive(Clone, Copy, Debug, PartialEq, Eq, Structural)]
pub enum PacketNumberSpace {
    Initial,
    Handshake,
    ApplicationData,
}

/// A packet number together with the space it belongs to.
#[derive(Clone, Copy, Debug, PartialEq, Eq, Structural)]
pub struct PacketNumber {
    pub space: PacketNumberSpace,
    pub value: u64,
}

impl PacketNumber {
    pub open spec fn wf(&self) -> bool {
        self.value <= PACKET_NUMBER_MAX
    }

    /// Creates a packet number; `None` when `value` does not fit in 62 bits.
    pub fn new(space: PacketNumberSpace, value: u64) -> (r: Option<PacketNumber>)
        ensures
            value <= PACKET_NUMBER_MAX ==> r == Some(PacketNumber { space, value }),
            value > PACKET_NUMBER_MAX ==> r.is_none(),
    {
        if value <= PACKET_NUMBER_MAX {
            Some(PacketNumber { space, value })
        } else {
            None
        }
    }

    pub fn space(&self) -> (r: PacketNumberSpace)
        ensures
            r == self.space,
    {
        self.space
    }

    pub fn as_u64(&self) -> (r: u64)
        ensures
            r == self.value,
    {
        self.value
    }

    /// Truncates the packet number to `len` bytes: its value modulo `256^len`.
    pub fn truncate_to(&self, len: PacketNumberLen) -> (r: TruncatedPacketNumber)
        requires
            len.wf(),
        ensures
            r.wf(),
            r.space == self.space,
            r.len == len,
            r.value as int == self.value as int % window(len.bytes as nat) as int,
    {
        let win = len.window_size();
        let v = self.value % win;
        TruncatedPacketNumber { space: self.space, len, value: v as u32 }
    }

    /// Truncates the packet number to the fewest bytes that still let a peer
    /// that has acknowledged `largest_acknowledged` recover it: the smallest
    /// length whose half window covers the distance between the two.
    /// `None` when the packet number is not ahead of `largest_acknowledged`,
    /// lies in another space, or is more than `2^31` ahead.
    pub fn truncate(&self, largest_acknowledged: PacketNumber) -> (r: Option<TruncatedPacketNumber>)
        requires
            self.wf(),
            largest_acknowledged.wf(),
        ensures
            r.is_some() <==> (self.space == largest_acknowledged.space
                && largest_acknowledged.value < self.value
                && self.value - largest_acknowledged.value <= half_window(4)),
            r matches Some(t) ==> {
                &&& t.wf()
                &&& t.space == self.space
                &&& t.value as int == self.value as int % window(t.len.bytes as nat) as int
                &&& self.value - largest_acknowledged.value <= half_window(t.len.bytes as nat)
                &&& forall|l: nat|
                    1 <= l < t.len.bytes ==> self.value - largest_acknowledged.value > half_window(l)
            },
    {
        if self.space != largest_acknowledged.space || self.value <= largest_acknowledged.value {
            return None;
        }
        let distance = self.value - largest_acknowledged.value;
        let mut bytes: u8 = 1;
        while bytes <= 4
            invariant
                1 <= bytes <= 5,
                self.space == largest_acknowledged.space,
                largest_acknowledged.value < self.value,
                distance == self.value - largest_acknowledged.value,
                forall|l: nat| 1 <= l < bytes ==> distance > half_window(l),
            decreases 5 - bytes,
        {
            let len = PacketNumberLen { bytes };
            if distance <= len.window_size() / 2 {
                assert(half_window(bytes as nat) <= half_window(4));
                return Some(self.truncate_to(len));
            }
            bytes = bytes + 1;
        }
        assert(distance > half_window(4));
        None
    }
}

/// The number of bytes, one to four, that a truncated packet number takes.
#[derive(Clone, Copy, Debug, PartialEq, Eq, Structural)]
pub struct PacketNumberLen {
    pub bytes: u8,
}

/// `256^len`: how many values a truncated packet number of `len` bytes has.
pub open spec fn window(len: nat) -> nat {
    if len == 1 {
        0x100
    } else if len == 2 {
        0x1_0000
    } else if len == 3 {
        0x100_0000
    } else {
        0x1_0000_0000
    }
}

pub open spec fn half_window(len: nat) -> nat {
    window(len) / 2
}

impl PacketNumberLen {
    pub open spec fn wf(&self) -> bool {
        1 <= self.bytes <= 4
    }

    /// `None` unless `bytes` is between one and four.
    pub fn new(bytes: u8) -> (r: Option<PacketNumberLen>)
        ensures
            r.is_some() <==> 1 <= bytes <= 4,
            r matches Some(l) ==> l.bytes == bytes,
    {
        if 1 <= bytes && bytes <= 4 {
            Some(PacketNumberLen { bytes })
        } else {
            None
        }
    }

    pub fn bytes(&self) -> (r: usize)
        ensures
            r == self.bytes,
    {
        self.bytes as usize
    }

    pub fn window_size(&self) -> (r: u64)
        requires
            self.wf(),
        ensures
            r == window(self.bytes as nat),
    {
        if self.bytes == 1 {
            0x100
        } else if self.bytes == 2 {
            0x1_0000
        } else if self.bytes == 3 {
            0x100_0000
        } else {
            0x1_0000_0000
        }
    }

    /// Reads the length from the two low bits of a header tag.
    pub fn from_packet_tag(tag: u8) -> (r: PacketNumberLen)
        ensures
            r.wf(),
            r.bytes == tag % 4 + 1,
    {
        let low = tag & 0x03;
        assert(tag & 0x03 == tag % 4) by (bit_vector);
        PacketNumberLen { bytes: low + 1 }
    }

    /// The two low bits of a header tag that announce this length.
    pub fn into_packet_tag_mask(self) -> (r: u8)
        requires
            self.wf(),
        ensures
            r == self.bytes - 1,
    {
        self.bytes - 1
    }
}

/// A packet number as it stands on the wire: its low `len` bytes.
#[derive(Clone, Copy, Debug, PartialEq, Eq, Structural)]
pub struct TruncatedPacketNumber {
    pub space: PacketNumberSpace,
    pub len: PacketNumberLen,
    pub value: u32,
}

/// The packet number that a truncated value of `len` bytes stands for, given
/// the largest packet number acknowledged so far: the value congruent to
/// `truncated` modulo the window that lies closest to `largest + 1`.
pub open spec fn expand_value(truncated: nat, len: nat, largest: nat) -> int {
    let expected = largest as int + 1;
    let win = window(len) as int;
    let hwin = half_window(len) as int;
    let candidate = expected - expected % win + truncated;
    if candidate + hwin <= expected && candidate + win <= PACKET_NUMBER_MAX {
        candidate + win
    } else if candidate > expected + hwin && candidate >= win {
        candidate - win
    } else {
        candidate
    }
}

impl TruncatedPacketNumber {
    pub open spec fn wf(&self) -> bool {
        &&& self.len.wf()
        &&& self.value < window(self.len.bytes as nat)
    }

    pub fn len(&self) -> (r: PacketNumberLen)
        ensures
            r == self.len,
    {
        self.len
    }

    pub fn as_u32(&self) -> (r: u32)
        ensures
            r == self.value,
    {
        self.value
    }

    /// Recovers the full packet number against the largest one acknowledged
    /// so far. `None` when the spaces differ or the result leaves the 62-bit
    /// range.
    pub fn expand(&self, largest_acknowledged: PacketNumber) -> (r: Option<PacketNumber>)
        requires
            self.wf(),
            largest_acknowledged.wf(),
        ensures
            ({
                let v = expand_value(
                    self.value as nat,
                    self.len.bytes as nat,
                    largest_acknowledged.value as nat,
                );
                if self.space == largest_acknowledged.space && 0 <= v <= PACKET_NUMBER_MAX {
                    r == Some(PacketNumber { space: self.space, value: v as u64 })
                } else {
                    r.is_none()
                }
            }),
    {
        if self.space != largest_acknowledged.space {
            return None;
        }
        let expected: u64 = largest_acknowledged.value + 1;
        let win = self.len.window_size();
        let hwin = win / 2;
        let candidate: u64 = expected - expected % win + self.value as u64;
        let value: u64 = if candidate + hwin <= expected && candidate + win <= PACKET_NUMBER_MAX {
            candidate + win
        } else if candidate > expected + hwin && candidate >= win {
            candidate - win
        } else {
            candidate
        };
        if value <= PACKET_NUMBER_MAX {
            Some(PacketNumber { space: self.space, value })
        } else {
            None
        }
    }
}

/// Truncating a packet number to any length and expanding it again against
/// a largest acknowledged packet number within half a window below it gives
/// the packet number back.
pub proof fn lemma_truncate_expand_round_trip(
    pn: PacketNumber,
    largest: PacketNumber,
    len: PacketNumberLen,
)
    requires
        pn.wf(),
        largest.wf(),
        len.wf(),
        pn.space == largest.space,
        largest.value + 1 - half_window(len.bytes as nat) < pn.value,
        pn.value <= largest.value + 1 + half_window(len.bytes as nat),
    ensures
        expand_value(
            (pn.value as int % window(len.bytes as nat) as int) as nat,
            len.bytes as nat,
            largest.value as nat,
        ) == pn.value,
{
    let win = window(len.bytes as nat) as int;
    let hwin = half_window(len.bytes as nat) as int;
    assert(win == 2 * hwin && hwin > 0);
    let expected = largest.value + 1;
    let p = pn.value as int;
    let q1 = p / win;
    let r1 = p % win;
    let q2 = expected / win;
    let r2 = expected % win;
    vstd::arithmetic::div_mod::lemma_fundamental_div_mod(p, win);
    vstd::arithmetic::div_mod::lemma_fundamental_div_mod(expected, win);
    vstd::arithmetic::div_mod::lemma_mod_bound(p, win);
    vstd::arithmetic::div_mod::lemma_mod_bound(expected, win);
    let candidate = expected - r2 + r1;
    let k = q1 - q2;
    assert(p - candidate == k * win) by (nonlinear_arith)
        requires
            p == win * q1 + r1,
            expected == win * q2 + r2,
            candidate == expected - r2 + r1,
            k == q1 - q2,
    ;
    assert(-2 * win < p - candidate < 2 * win);
    assert(-2 < k < 2) by (nonlinear_arith)
        requires
            -2 * win < k * win < 2 * win,
            win > 0,
    ;
    if candidate + hwin <= expected {
        assert(k == 1) by (nonlinear_arith)
            requires
                p - candidate == k * win,
                -2 < k < 2,
                win > 0,
                candidate < p,
        ;
    } else if candidate > expected + hwin {
        assert(k == -1) by (nonlinear_arith)
            requires
                p - candidate == k * win,
                -2 < k < 2,
                win > 0,
                candidate > p,
        ;
    } else {
        assert(k == 0) by (nonlinear_arith)
            requires
                p - candidate == k * win,
                -2 < k < 2,
                win > 0,
                -win < p - candidate < win,
        ;
    }
}

/// A packet number truncated to the length that `truncate` chooses expands
/// back to itself against the same largest acknowledged packet number.
pub proof fn lemma_truncate_minimal_round_trip(
    pn: PacketNumber,
    largest: PacketNumber,
    t: TruncatedPacketNumber,
)
    requires
        pn.wf(),
        largest.wf(),
        t.wf(),
        t.space == pn.space,
        pn.space == largest.space,
        largest.value < pn.value,
        pn.value - largest.value <= half_window(t.len.bytes as nat),
        t.value as int == pn.value as int % window(t.len.bytes as nat) as int,
    ensures
        expand_value(t.value as nat, t.len.bytes as nat, largest.value as nat) == pn.value,
{
    lemma_truncate_expand_round_trip(pn, largest, t.len);
}

} // verus!
