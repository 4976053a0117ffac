//! Short-header packets, and the three stages a received one goes through:
//! `Protected` (only the first byte and the connection id are legible),
//! `Encrypted` (header protection removed: key phase and packet number are
//! known) and `Cleartext` (payload authenticated and decrypted). Each stage
//! is a distinct type and each step consumes the previous stage.
//!
//! Wire layout of the first byte: `0b01` fixed prefix, spin bit (0x20), two
//! reserved bits (0x18), key-phase bit (0x04), packet-number length minus
//! one (0x03). The destination connection id follows, then the protected
//! packet number (one to four bytes) and the protected payload.

use vstd::prelude::*;
use crate::bytes::{copy_range, copy_slice};
use crate::packet_number::{
    expand_value, window, PacketNumber, PacketNumberLen, PacketNumberSpace, TruncatedPacketNumber,
    PACKET_NUMBER_MAX,
};

verus! {

pub type Tag = u8;

pub const SPIN_BIT_MASK: u8 = 0x20;

pub const KEY_PHASE_MASK: u8 = 0x04;

pub const RESERVED_BITS_MASK: u8 = 0x18;

/// The first byte of an encoded short header before the flag bits are set.
pub const ENCODING_TAG: u8 = 0x40;

/// The longest destination connection id.
pub const MAX_CONNECTION_ID_LEN: usize = 20;

/// Header protection samples this many bytes of ciphertext.
pub const HEADER_PROTECTION_SAMPLE_LEN: usize = 16;

/// Header protection masks this many bytes: part of the first byte and up to
/// four packet-number bytes.
pub const HEADER_PROTECTION_MASK_LEN: usize = 5;

/// The latency spin bit.
#[derive(Clone, Copy, Debug, PartialEq, Eq, Structural)]
pub enum SpinBit {
    Zero,
    One,
}

/// The spin bit that a first byte carries.
pub open spec fn spin_bit_of(tag: Tag) -> SpinBit {
    if tag & SPIN_BIT_MASK == SPIN_BIT_MASK {
        SpinBit::One
    } else {
        SpinBit::Zero
    }
}

impl SpinBit {
    pub fn from_tag(tag: Tag) -> (r: SpinBit)
        ensures
            r == spin_bit_of(tag),
    {
        if tag & SPIN_BIT_MASK == SPIN_BIT_MASK {
            SpinBit::One
        } else {
            SpinBit::Zero
        }
    }

    pub fn into_packet_tag_mask(self) -> (r: u8)
        ensures
            r == (match self {
                SpinBit::One => SPIN_BIT_MASK,
                SpinBit::Zero => 0,
            }),
    {
        match self {
            SpinBit::One => SPIN_BIT_MASK,
            SpinBit::Zero => 0,
        }
    }
}

/// The key phase of a packet whose header protection is still applied.
#[derive(Clone, Copy, Debug, PartialEq, Eq, Structural)]
pub struct ProtectedKeyPhase;

/// Which of the two live key generations protected a packet.
#[derive(Clone, Copy, Debug, PartialEq, Eq, Structural)]
pub enum KeyPhase {
    Zero,
    One,
}

/// The key phase that an unprotected first byte carries.
pub open spec fn key_phase_of(tag: Tag) -> KeyPhase {
    if tag & KEY_PHASE_MASK == KEY_PHASE_MASK {
        KeyPhase::One
    } else {
        KeyPhase::Zero
    }
}

impl KeyPhase {
    pub fn from_tag(tag: Tag) -> (r: KeyPhase)
        ensures
            r == key_phase_of(tag),
    {
        if tag & KEY_PHASE_MASK == KEY_PHASE_MASK {
            KeyPhase::One
        } else {
            KeyPhase::Zero
        }
    }

    pub fn into_packet_tag_mask(self) -> (r: u8)
        ensures
            r == (match self {
                KeyPhase::One => KEY_PHASE_MASK,
                KeyPhase::Zero => 0,
            }),
    {
        match self {
            KeyPhase::One => KEY_PHASE_MASK,
            KeyPhase::Zero => 0,
        }
    }
}

/// The packet number of a packet whose header protection is still applied.
#[derive(Clone, Copy, Debug, PartialEq, Eq, Structural)]
pub struct ProtectedPacketNumber;

/// A range of bytes within a packet buffer.
#[derive(Clone, Copy, Debug, PartialEq, Eq, Structural)]
pub struct CheckedRange {
    pub start: usize,
    pub len: usize,
}

/// A whole packet whose packet number starts at `header_len`; header and
/// packet protection are both still applied.
#[derive(Debug)]
pub struct ProtectedPayload {
    pub header_len: usize,
    pub buffer: Vec<u8>,
}

/// A whole packet whose header protection was removed; its header, packet
/// number included, takes the first `header_len` bytes, the sealed payload
/// the rest.
#[derive(Debug)]
pub struct EncryptedPayload {
    pub header_len: usize,
    pub packet_number_len: PacketNumberLen,
    pub buffer: Vec<u8>,
}

/// Errors in the envelope of a packet.
#[derive(Clone, Copy, Debug, PartialEq, Eq, Structural)]
pub enum DecodeError {
    /// The buffer ends before the header does.
    UnexpectedEnd,
    /// The first byte is not that of a short header.
    InvalidTag,
    /// The connection id is longer than a connection id can be.
    InvalidConnectionIdLength,
}

/// Errors in removing header or packet protection.
#[derive(Clone, Copy, Debug, PartialEq, Eq, Structural)]
pub enum CryptoError {
    /// The protected header cannot be read, or its packet number cannot be
    /// expanded.
    DecodeError,
    /// The payload did not authenticate; which way is not told.
    DecryptError,
    /// A reserved header bit is set in an authenticated packet.
    ProtocolViolation,
}

/// The packet protection keys of the one-round-trip phase. Both operations
/// are deterministic: their results depend on the keys and the arguments
/// alone, which the two spec functions name.
pub trait OneRttCrypto {
    /// The mask that the keys derive from a ciphertext sample.
    spec fn spec_header_protection_mask(&self, sample: Seq<u8>) -> Seq<u8>;

    /// What opening `payload`, sealed under `packet_number` with `header` as
    /// associated data, gives with the keys.
    spec fn spec_decrypt(&self, packet_number: u64, header: Seq<u8>, payload: Seq<u8>) -> Result<
        Seq<u8>,
        CryptoError,
    >;

    /// The header protection mask computed from a ciphertext sample.
    fn header_protection_mask(&self, sample: &[u8]) -> (r: Vec<u8>)
        ensures
            r@ == self.spec_header_protection_mask(sample@),
    ;

    /// Opens the payload sealed under `packet_number`, with `header` as
    /// associated data.
    fn decrypt(&self, packet_number: u64, header: &[u8], payload: &[u8]) -> (r: Result<
        Vec<u8>,
        CryptoError,
    >)
        ensures
            opened_view(r) == self.spec_decrypt(packet_number, header@, payload@),
    ;
}

/// Keys with a fixed header protection mask and no packet protection: a
/// payload opens to itself, or fails to authenticate when `authentic` is
/// false. They drive the pipeline without a cipher suite.
pub struct FixedMaskCrypto {
    pub mask: Vec<u8>,
    pub authentic: bool,
}

impl OneRttCrypto for FixedMaskCrypto {
    open spec fn spec_header_protection_mask(&self, sample: Seq<u8>) -> Seq<u8> {
        self.mask@
    }

    open spec fn spec_decrypt(&self, packet_number: u64, header: Seq<u8>, payload: Seq<u8>) -> Result<
        Seq<u8>,
        CryptoError,
    > {
        if self.authentic {
            Ok(payload)
        } else {
            Err(CryptoError::DecryptError)
        }
    }

    fn header_protection_mask(&self, sample: &[u8]) -> (r: Vec<u8>) {
        copy_range(&self.mask, 0, self.mask.len())
    }

    fn decrypt(&self, packet_number: u64, header: &[u8], payload: &[u8]) -> (r: Result<
        Vec<u8>,
        CryptoError,
    >) {
        if self.authentic {
            Ok(copy_slice(payload))
        } else {
            Err(CryptoError::DecryptError)
        }
    }
}

/// The plaintext bytes of an opened payload, or its error.
pub open spec fn opened_view(opened: Result<Vec<u8>, CryptoError>) -> Result<Seq<u8>, CryptoError> {
    match opened {
        Ok(v) => Ok(v@),
        Err(e) => Err(e),
    }
}

/// A short-header packet, its fields typed by the stage of decoding.
#[derive(Debug)]
pub struct Short<DCID, KP, PN, Payload> {
    pub spin_bit: SpinBit,
    pub key_phase: KP,
    pub destination_connection_id: DCID,
    pub packet_number: PN,
    pub payload: Payload,
}

pub type ProtectedShort = Short<CheckedRange, ProtectedKeyPhase, ProtectedPacketNumber, ProtectedPayload>;

pub type EncryptedShort = Short<CheckedRange, KeyPhase, PacketNumber, EncryptedPayload>;

pub type CleartextShort = Short<Vec<u8>, KeyPhase, PacketNumber, Vec<u8>>;

/// Whether `tag` starts a short header: form bit clear, fixed bit set.
pub open spec fn is_short_tag(tag: u8) -> bool {
    tag & 0xc0 == 0x40
}

/// The integer that `s` encodes, most significant byte first.
pub open spec fn be_value(s: Seq<u8>) -> nat
    decreases s.len(),
{
    if s.len() == 0 {
        0
    } else {
        be_value(s.drop_last()) * 256 + s.last() as nat
    }
}

/// The first byte once the header protection mask is removed: the low five
/// bits of a short header are protected.
pub open spec fn unprotected_tag(tag: u8, mask0: u8) -> u8 {
    tag ^ (mask0 & 0x1f)
}

/// The packet-number length that a tag announces.
pub open spec fn tag_packet_number_len(tag: u8) -> nat {
    tag as nat % 4 + 1
}

/// The packet bytes with the header protection mask removed from the first
/// byte and from the `pn_len` packet-number bytes at `pn_offset`.
pub open spec fn unmasked(buf: Seq<u8>, mask: Seq<u8>, pn_offset: nat, pn_len: nat) -> Seq<u8> {
    Seq::new(
        buf.len(),
        |i: int|
            if i == 0 {
                unprotected_tag(buf[0], mask[0])
            } else if pn_offset <= i < pn_offset + pn_len {
                buf[i] ^ mask[1 + i - pn_offset]
            } else {
                buf[i]
            },
    )
}

impl ProtectedShort {
    pub open spec fn wf(&self) -> bool {
        &&& self.destination_connection_id.start == 1
        &&& self.destination_connection_id.len <= MAX_CONNECTION_ID_LEN
        &&& self.payload.header_len == 1 + self.destination_connection_id.len
        &&& self.payload.header_len <= self.payload.buffer@.len()
        &&& is_short_tag(self.payload.buffer@[0])
    }

    /// Decodes the version-independent envelope of a short-header packet
    /// that fills `buffer`, whose destination connection id is
    /// `destination_connection_id_len` bytes long. A short-header packet
    /// extends to the end of the datagram, so nothing remains after it.
    pub fn decode(buffer: Vec<u8>, destination_connection_id_len: usize) -> (r: Result<
        (ProtectedShort, Vec<u8>),
        DecodeError,
    >)
        ensures
            buffer@.len() == 0 ==> r == Err::<(ProtectedShort, Vec<u8>), DecodeError>(
                DecodeError::UnexpectedEnd,
            ),
            buffer@.len() > 0 && !is_short_tag(buffer@[0]) ==> r == Err::<
                (ProtectedShort, Vec<u8>),
                DecodeError,
            >(DecodeError::InvalidTag),
            buffer@.len() > 0 && is_short_tag(buffer@[0]) && destination_connection_id_len
                > MAX_CONNECTION_ID_LEN ==> r == Err::<(ProtectedShort, Vec<u8>), DecodeError>(
                DecodeError::InvalidConnectionIdLength,
            ),
            buffer@.len() > 0 && is_short_tag(buffer@[0]) && destination_connection_id_len
                <= MAX_CONNECTION_ID_LEN && buffer@.len() < 1 + destination_connection_id_len
                ==> r == Err::<(ProtectedShort, Vec<u8>), DecodeError>(
                DecodeError::UnexpectedEnd,
            ),
            r.is_ok() <==> (buffer@.len() > 0 && is_short_tag(buffer@[0])
                && destination_connection_id_len <= MAX_CONNECTION_ID_LEN && 1
                + destination_connection_id_len <= buffer@.len()),
            r matches Ok((p, rest)) ==> {
                &&& p.wf()
                &&& p.spin_bit == spin_bit_of(buffer@[0])
                &&& p.destination_connection_id == (CheckedRange {
                    start: 1,
                    len: destination_connection_id_len,
                })
                &&& p.payload.buffer@ == buffer@
                &&& rest@.len() == 0
            },
    {
        if buffer.len() == 0 {
            return Err(DecodeError::UnexpectedEnd);
        }
        let tag = buffer[0];
        if tag & 0xc0 != 0x40 {
            return Err(DecodeError::InvalidTag);
        }
        if destination_connection_id_len > MAX_CONNECTION_ID_LEN {
            return Err(DecodeError::InvalidConnectionIdLength);
        }
        let header_len = 1 + destination_connection_id_len;
        if buffer.len() < header_len {
            return Err(DecodeError::UnexpectedEnd);
        }
        let packet = Short {
            spin_bit: SpinBit::from_tag(tag),
            key_phase: ProtectedKeyPhase,
            destination_connection_id: CheckedRange { start: 1, len: destination_connection_id_len },
            packet_number: ProtectedPacketNumber,
            payload: ProtectedPayload { header_len, buffer },
        };
        Ok((packet, Vec::new()))
    }

    /// The destination connection id bytes.
    pub fn destination_connection_id(&self) -> (r: &[u8])
        requires
            self.wf(),
        ensures
            r@ == self.payload.buffer@.subrange(1, self.payload.header_len as int),
    {
        vstd::slice::slice_subrange(
            self.payload.buffer.as_slice(),
            self.destination_connection_id.start,
            self.destination_connection_id.start + self.destination_connection_id.len,
        )
    }

    /// Whether the packet holds a full header protection sample, taken four
    /// bytes past the start of the packet number.
    pub open spec fn has_sample(&self) -> bool {
        self.payload.header_len + 4 + HEADER_PROTECTION_SAMPLE_LEN <= self.payload.buffer@.len()
    }

    /// The ciphertext sample the header protection mask is computed from.
    pub open spec fn sample(&self) -> Seq<u8> {
        self.payload.buffer@.subrange(
            self.payload.header_len + 4,
            self.payload.header_len + 4 + HEADER_PROTECTION_SAMPLE_LEN,
        )
    }

    /// What removing header protection with `mask` gives against
    /// `largest`: the packet bytes with the mask removed, the packet-number
    /// length and the expanded packet number, or the error.
    pub open spec fn unprotect_spec(&self, mask: Seq<u8>, largest: PacketNumber) -> Result<
        (Seq<u8>, nat, int),
        CryptoError,
    > {
        let buf = self.payload.buffer@;
        let pn_offset = self.payload.header_len as nat;
        let tag = unprotected_tag(buf[0], mask[0]);
        let pn_len = tag_packet_number_len(tag);
        let bytes = unmasked(buf, mask, pn_offset, pn_len);
        let truncated = be_value(bytes.subrange(pn_offset as int, (pn_offset + pn_len) as int));
        let value = expand_value(truncated, pn_len, largest.value as nat);
        if mask.len() < HEADER_PROTECTION_MASK_LEN || buf.len() < pn_offset + 4 {
            Err(CryptoError::DecodeError)
        } else if largest.space != PacketNumberSpace::ApplicationData || !(0 <= value
            <= PACKET_NUMBER_MAX) {
            Err(CryptoError::DecodeError)
        } else {
            Ok((bytes, pn_len, value))
        }
    }

    /// Whether `r` is the result of removing header protection with `mask`
    /// against `largest`: the error of `unprotect_spec`, or the encrypted
    /// packet with the unmasked bytes, the header fields kept and the
    /// expanded packet number.
    pub open spec fn unprotect_result(&self, mask: Seq<u8>, largest: PacketNumber, r: Result<
        EncryptedShort,
        CryptoError,
    >) -> bool {
        match self.unprotect_spec(mask, largest) {
            Err(e) => r == Err::<EncryptedShort, CryptoError>(e),
            Ok((bytes, pn_len, value)) => r matches Ok(p) && {
                &&& p.wf()
                &&& p.spin_bit == self.spin_bit
                &&& p.key_phase == key_phase_of(bytes[0])
                &&& p.destination_connection_id == self.destination_connection_id
                &&& p.packet_number == (PacketNumber {
                    space: PacketNumberSpace::ApplicationData,
                    value: value as u64,
                })
                &&& p.payload.buffer@ == bytes
                &&& p.payload.packet_number_len.bytes == pn_len
                &&& p.payload.header_len == self.payload.header_len + pn_len
                &&& p.payload.buffer@.subrange(1, self.payload.header_len as int)
                    == self.payload.buffer@.subrange(1, self.payload.header_len as int)
            },
        }
    }

    /// Removes header protection with `mask` and expands the packet number
    /// against `largest_acknowledged_packet_number`.
    pub fn unprotect_with_mask(self, mask: &Vec<u8>, largest_acknowledged_packet_number: PacketNumber) -> (r: Result<
        EncryptedShort,
        CryptoError,
    >)
        requires
            self.wf(),
            largest_acknowledged_packet_number.wf(),
        ensures
            self.unprotect_result(mask@, largest_acknowledged_packet_number, r),
    {
        let Short { spin_bit, destination_connection_id, payload, .. } = self;
        let ProtectedPayload { header_len, mut buffer } = payload;
        if mask.len() < HEADER_PROTECTION_MASK_LEN || buffer.len() < header_len + 4 {
            return Err(CryptoError::DecodeError);
        }
        let ghost buf0 = buffer@;
        let tag = buffer[0] ^ (mask[0] & 0x1f);
        buffer[0] = tag;
        let pn_len = PacketNumberLen::from_packet_tag(tag);
        let n = pn_len.bytes();
        let mut i: usize = 0;
        let mut truncated: u64 = 0;
        while i < n
            invariant
                1 <= n <= 4,
                n == tag_packet_number_len(tag),
                tag == unprotected_tag(buf0[0], mask@[0]),
                mask@.len() >= HEADER_PROTECTION_MASK_LEN,
                header_len >= 1,
                header_len + 4 <= buf0.len(),
                header_len + 4 <= buffer.len(),
                0 <= i <= n,
                buffer@.len() == buf0.len(),
                forall|j: int|
                    0 <= j < buffer@.len() ==> buffer@[j] == if j < header_len + i {
                        unmasked(buf0, mask@, header_len as nat, n as nat)[j]
                    } else {
                        buf0[j]
                    },
                truncated == be_value(
                    unmasked(buf0, mask@, header_len as nat, n as nat).subrange(
                        header_len as int,
                        header_len + i,
                    ),
                ),
                truncated < pow256(i as nat),
            decreases n - i,
        {
            let ghost full = unmasked(buf0, mask@, header_len as nat, n as nat);
            proof {
                reveal_with_fuel(pow256, 5);
                assert(pow256(i as nat) <= 0x100_0000);
            }
            let b = buffer[header_len + i] ^ mask[1 + i];
            buffer[header_len + i] = b;
            proof {
                let s = full.subrange(header_len as int, header_len + i + 1);
                assert(s.drop_last() =~= full.subrange(header_len as int, header_len + i));
                assert(truncated * 256 + b < pow256(i as nat + 1)) by (nonlinear_arith)
                    requires
                        truncated < pow256(i as nat),
                        b < 256,
                        pow256(i as nat + 1) == 256 * pow256(i as nat),
                ;
            }
            truncated = truncated * 256 + b as u64;
            i = i + 1;
        }
        let ghost full = unmasked(buf0, mask@, header_len as nat, n as nat);
        assert(buffer@ =~= full);
        assert(buffer@.subrange(1, header_len as int) =~= buf0.subrange(1, header_len as int));
        proof {
            lemma_pow256_window(n as nat);
        }
        let truncated_packet_number = TruncatedPacketNumber {
            space: PacketNumberSpace::ApplicationData,
            len: pn_len,
            value: truncated as u32,
        };
        let key_phase = KeyPhase::from_tag(tag);
        let packet_number = match truncated_packet_number.expand(largest_acknowledged_packet_number) {
            Some(pn) => pn,
            None => {
                return Err(CryptoError::DecodeError);
            },
        };
        Ok(Short {
            spin_bit,
            key_phase,
            destination_connection_id,
            packet_number,
            payload: EncryptedPayload { header_len: header_len + n, packet_number_len: pn_len, buffer },
        })
    }

    /// Removes header protection with the keys of `crypto`. A packet too
    /// short to hold a sample fails with `DecodeError`; otherwise the result
    /// is that of `unprotect_with_mask` for the mask the keys derive from
    /// the sample.
    pub fn unprotect<C: OneRttCrypto>(self, crypto: &C, largest_acknowledged_packet_number: PacketNumber) -> (r: Result<
        EncryptedShort,
        CryptoError,
    >)
        requires
            self.wf(),
            largest_acknowledged_packet_number.wf(),
        ensures
            !self.has_sample() ==> r == Err::<EncryptedShort, CryptoError>(
                CryptoError::DecodeError,
            ),
            self.has_sample() ==> self.unprotect_result(
                crypto.spec_header_protection_mask(self.sample()),
                largest_acknowledged_packet_number,
                r,
            ),
    {
        let start = self.payload.header_len + 4;
        if self.payload.buffer.len() < start || self.payload.buffer.len() - start
            < HEADER_PROTECTION_SAMPLE_LEN {
            return Err(CryptoError::DecodeError);
        }
        let sample = vstd::slice::slice_subrange(
            self.payload.buffer.as_slice(),
            start,
            start + HEADER_PROTECTION_SAMPLE_LEN,
        );
        let mask = crypto.header_protection_mask(sample);
        self.unprotect_with_mask(&mask, largest_acknowledged_packet_number)
    }
}

/// `256^n`.
pub open spec fn pow256(n: nat) -> nat
    decreases n,
{
    if n == 0 {
        1
    } else {
        256 * pow256((n - 1) as nat)
    }
}

proof fn lemma_pow256_window(n: nat)
    requires
        1 <= n <= 4,
    ensures
        pow256(n) == window(n),
{
    reveal_with_fuel(pow256, 5);
}

impl EncryptedShort {
    pub open spec fn wf(&self) -> bool {
        &&& self.destination_connection_id.start == 1
        &&& self.destination_connection_id.len <= MAX_CONNECTION_ID_LEN
        &&& self.payload.packet_number_len.wf()
        &&& self.payload.header_len == 1 + self.destination_connection_id.len
            + self.payload.packet_number_len.bytes
        &&& self.payload.header_len <= self.payload.buffer@.len()
        &&& self.packet_number.wf()
    }

    /// The destination connection id bytes.
    pub fn destination_connection_id(&self) -> (r: &[u8])
        requires
            self.wf(),
        ensures
            r@ == self.payload.buffer@.subrange(1, 1 + self.destination_connection_id.len),
    {
        vstd::slice::slice_subrange(
            self.payload.buffer.as_slice(),
            self.destination_connection_id.start,
            self.destination_connection_id.start + self.destination_connection_id.len,
        )
    }

    /// The header, packet number included: the associated data of packet
    /// protection.
    pub open spec fn header(&self) -> Seq<u8> {
        self.payload.buffer@.subrange(0, self.payload.header_len as int)
    }

    /// The sealed payload.
    pub open spec fn sealed(&self) -> Seq<u8> {
        self.payload.buffer@.subrange(
            self.payload.header_len as int,
            self.payload.buffer@.len() as int,
        )
    }

    /// What decryption gives once packet protection reported `opened`: its
    /// error; or, where the payload authenticated, a protocol violation
    /// when a reserved bit is set; or the plaintext.
    pub open spec fn decrypt_spec(&self, opened: Result<Seq<u8>, CryptoError>) -> Result<
        Seq<u8>,
        CryptoError,
    > {
        match opened {
            Err(e) => Err(e),
            Ok(plain) => if self.payload.buffer@[0] & RESERVED_BITS_MASK != 0 {
                Err(CryptoError::ProtocolViolation)
            } else {
                Ok(plain)
            },
        }
    }

    /// Whether `r` is the result of decryption once packet protection
    /// reported `opened`: the cleartext packet keeps every header field and
    /// carries the plaintext.
    pub open spec fn decrypt_result(&self, opened: Result<Seq<u8>, CryptoError>, r: Result<
        CleartextShort,
        CryptoError,
    >) -> bool {
        match self.decrypt_spec(opened) {
            Err(e) => r == Err::<CleartextShort, CryptoError>(e),
            Ok(plain) => r matches Ok(p) && {
                &&& p.spin_bit == self.spin_bit
                &&& p.key_phase == self.key_phase
                &&& p.destination_connection_id@ == self.payload.buffer@.subrange(
                    1,
                    1 + self.destination_connection_id.len,
                )
                &&& p.packet_number == self.packet_number
                &&& p.payload@ == plain
            },
        }
    }

    /// Finishes decryption with what packet protection reported: the
    /// plaintext, or its error.
    pub fn decrypt_with(self, opened: Result<Vec<u8>, CryptoError>) -> (r: Result<
        CleartextShort,
        CryptoError,
    >)
        requires
            self.wf(),
        ensures
            self.decrypt_result(opened_view(opened), r),
    {
        let payload = match opened {
            Ok(p) => p,
            Err(e) => {
                return Err(e);
            },
        };
        if self.payload.buffer[0] & RESERVED_BITS_MASK != 0 {
            return Err(CryptoError::ProtocolViolation);
        }
        let destination_connection_id = copy_range(
            &self.payload.buffer,
            self.destination_connection_id.start,
            self.destination_connection_id.start + self.destination_connection_id.len,
        );
        Ok(Short {
            spin_bit: self.spin_bit,
            key_phase: self.key_phase,
            destination_connection_id,
            packet_number: self.packet_number,
            payload,
        })
    }

    /// Authenticates and decrypts the payload with the keys of `crypto`,
    /// then checks the reserved bits, which are only meaningful once the
    /// packet authenticated.
    pub fn decrypt<C: OneRttCrypto>(self, crypto: &C) -> (r: Result<CleartextShort, CryptoError>)
        requires
            self.wf(),
        ensures
            self.decrypt_result(
                crypto.spec_decrypt(self.packet_number.value, self.header(), self.sealed()),
                r,
            ),
    {
        let buf = self.payload.buffer.as_slice();
        let header = vstd::slice::slice_subrange(buf, 0, self.payload.header_len);
        let sealed = vstd::slice::slice_subrange(buf, self.payload.header_len, buf.len());
        let opened = crypto.decrypt(self.packet_number.value, header, sealed);
        self.decrypt_with(opened)
    }
}

impl CleartextShort {
    /// The destination connection id bytes.
    pub fn destination_connection_id(&self) -> (r: &[u8])
        ensures
            r@ == self.destination_connection_id@,
    {
        self.destination_connection_id.as_slice()
    }
}

/// The first byte of an encoded short header.
pub open spec fn header_tag(spin_bit: SpinBit, key_phase: KeyPhase, packet_number_len: nat) -> u8 {
    (ENCODING_TAG | (match spin_bit {
        SpinBit::One => SPIN_BIT_MASK,
        SpinBit::Zero => 0u8,
    }) | (match key_phase {
        KeyPhase::One => KEY_PHASE_MASK,
        KeyPhase::Zero => 0u8,
    }) | (packet_number_len - 1) as u8) as u8
}

/// The `n` low bytes of `v`, most significant first.
pub open spec fn be_bytes(v: nat, n: nat) -> Seq<u8> {
    Seq::new(n, |i: int| ((v / pow256((n - 1 - i) as nat)) % 256) as u8)
}

proof fn lemma_pow256_positive(n: nat)
    ensures
        pow256(n) > 0,
    decreases n,
{
    if n > 0 {
        lemma_pow256_positive((n - 1) as nat);
    }
}

/// The `n` bytes that encode a value read back, most significant first, as
/// the value modulo `256^n`: what `encode` writes for a truncated packet
/// number is what unprotection reads.
pub proof fn lemma_be_bytes_read_back(v: nat, n: nat)
    ensures
        be_value(be_bytes(v, n)) == v % pow256(n),
    decreases n,
{
    if n == 0 {
        assert(be_bytes(v, 0).len() == 0);
    } else {
        let m = (n - 1) as nat;
        let s = be_bytes(v, n);
        lemma_pow256_positive(m);
        assert forall|i: int| 0 <= i < m implies s.drop_last()[i] == be_bytes(v / 256, m)[i] by {
            let k = (m - 1 - i) as nat;
            assert(pow256((n - 1 - i) as nat) == 256 * pow256(k));
            lemma_pow256_positive(k);
            vstd::arithmetic::div_mod::lemma_div_denominator(v as int, 256, pow256(k) as int);
        }
        assert(s.drop_last() =~= be_bytes(v / 256, m));
        assert(pow256((n - 1 - (n - 1)) as nat) == 1);
        assert(s.last() == (v % 256) as u8);
        lemma_be_bytes_read_back(v / 256, m);
        vstd::arithmetic::div_mod::lemma_mod_breakdown(v as int, 256, pow256(m) as int);
        assert(pow256(n) == 256 * pow256(m));
    }
}

fn pow256_exec(k: usize) -> (r: u64)
    requires
        k <= 3,
    ensures
        r == pow256(k as nat),
        r > 0,
{
    proof {
        reveal_with_fuel(pow256, 4);
    }
    if k == 0 {
        1
    } else if k == 1 {
        0x100
    } else if k == 2 {
        0x1_0000
    } else {
        0x100_0000
    }
}

impl<PN, Payload> Short<Vec<u8>, KeyPhase, PN, Payload> {
    /// Appends the first byte, announcing `packet_number_len`, and the
    /// destination connection id.
    pub fn encode_header(&self, packet_number_len: PacketNumberLen, out: &mut Vec<u8>)
        requires
            packet_number_len.wf(),
        ensures
            final(out)@ == old(out)@ + seq![
                header_tag(self.spin_bit, self.key_phase, packet_number_len.bytes as nat),
            ] + self.destination_connection_id@,
    {
        let tag = ENCODING_TAG | self.spin_bit.into_packet_tag_mask()
            | self.key_phase.into_packet_tag_mask() | packet_number_len.into_packet_tag_mask();
        out.push(tag);
        let ghost with_tag = out@;
        let mut i: usize = 0;
        while i < self.destination_connection_id.len()
            invariant
                0 <= i <= self.destination_connection_id@.len(),
                out@ == with_tag + self.destination_connection_id@.subrange(0, i as int),
            decreases self.destination_connection_id@.len() - i,
        {
            out.push(self.destination_connection_id[i]);
            i = i + 1;
        }
        assert(self.destination_connection_id@.subrange(0, i as int)
            =~= self.destination_connection_id@);
    }
}

impl Short<Vec<u8>, KeyPhase, TruncatedPacketNumber, Vec<u8>> {
    /// Appends the packet: header, truncated packet number and payload.
    pub fn encode(&self, out: &mut Vec<u8>)
        requires
            self.packet_number.wf(),
        ensures
            final(out)@ == old(out)@ + seq![
                header_tag(self.spin_bit, self.key_phase, self.packet_number.len.bytes as nat),
            ] + self.destination_connection_id@ + be_bytes(
                self.packet_number.value as nat,
                self.packet_number.len.bytes as nat,
            ) + self.payload@,
    {
        let len = self.packet_number.len;
        self.encode_header(len, out);
        let ghost with_header = out@;
        let n = len.bytes();
        let mut i: usize = 0;
        while i < n
            invariant
                1 <= n <= 4,
                n == self.packet_number.len.bytes,
                0 <= i <= n,
                out@ == with_header + be_bytes(self.packet_number.value as nat, n as nat).subrange(
                    0,
                    i as int,
                ),
            decreases n - i,
        {
            let divisor = pow256_exec(n - 1 - i);
            let b = ((self.packet_number.value as u64 / divisor) % 256) as u8;
            out.push(b);
            i = i + 1;
            assert(be_bytes(self.packet_number.value as nat, n as nat).subrange(0, i as int)
                =~= be_bytes(self.packet_number.value as nat, n as nat).subrange(
                0,
                i - 1,
            ).push(b));
        }
        assert(be_bytes(self.packet_number.value as nat, n as nat).subrange(0, n as int)
            =~= be_bytes(self.packet_number.value as nat, n as nat));
        let ghost with_number = out@;
        let mut j: usize = 0;
        while j < self.payload.len()
            invariant
                0 <= j <= self.payload@.len(),
                out@ == with_number + self.payload@.subrange(0, j as int),
            decreases self.payload@.len() - j,
        {
            out.push(self.payload[j]);
            j = j + 1;
        }
        assert(self.payload@.subrange(0, j as int) =~= self.payload@);
    }
}

} // verus!
