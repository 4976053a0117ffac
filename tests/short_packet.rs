use quic_core::packet_number::{PacketNumber, PacketNumberLen, PacketNumberSpace, TruncatedPacketNumber};
use quic_core::short::{
    CryptoError, DecodeError, FixedMaskCrypto, KeyPhase, ProtectedShort, Short, SpinBit,
};

fn pn(value: u64) -> PacketNumber {
    PacketNumber::new(PacketNumberSpace::ApplicationData, value).unwrap()
}

const DCID: [u8; 4] = [0xc1, 0xc2, 0xc3, 0xc4];

/// A packet with tag `tag`, a four-byte connection id, the two packet-number
/// bytes `pn_bytes` as they stand on the wire, and a 20-byte payload.
fn wire_packet(tag: u8, pn_bytes: [u8; 2]) -> Vec<u8> {
    let mut v = vec![tag];
    v.extend_from_slice(&DCID);
    v.extend_from_slice(&pn_bytes);
    v.extend((0u8..20).map(|i| i + 100));
    v
}

fn decode(buffer: Vec<u8>) -> ProtectedShort {
    let (packet, rest) = ProtectedShort::decode(buffer, 4).unwrap();
    assert!(rest.is_empty());
    packet
}

#[test]
fn decode_reads_spin_bit_and_connection_id() {
    let packet = decode(wire_packet(0x61, [0, 0]));
    assert_eq!(packet.spin_bit, SpinBit::One);
    assert_eq!(packet.destination_connection_id(), &DCID[..]);
    let packet = decode(wire_packet(0x41, [0, 0]));
    assert_eq!(packet.spin_bit, SpinBit::Zero);
}

#[test]
fn decode_rejects_bad_envelopes() {
    assert_eq!(ProtectedShort::decode(vec![], 4).unwrap_err(), DecodeError::UnexpectedEnd);
    assert_eq!(ProtectedShort::decode(vec![0x80, 1, 2], 0).unwrap_err(), DecodeError::InvalidTag);
    assert_eq!(ProtectedShort::decode(vec![0x00, 1, 2], 0).unwrap_err(), DecodeError::InvalidTag);
    assert_eq!(
        ProtectedShort::decode(vec![0x40; 30], 21).unwrap_err(),
        DecodeError::InvalidConnectionIdLength
    );
    assert_eq!(ProtectedShort::decode(vec![0x40, 1, 2], 4).unwrap_err(), DecodeError::UnexpectedEnd);
}

#[test]
fn unprotect_removes_the_mask_and_expands() {
    // wire tag 0x41 with mask 0x05 gives 0x44: key phase one, one-byte packet number
    let crypto = FixedMaskCrypto { mask: vec![0x05, 0x0f, 0, 0, 0], authentic: true };
    let packet = decode(wire_packet(0x41, [0x0f ^ 0x2a, 0x77]));
    let encrypted = packet.unprotect(&crypto, pn(0x120)).unwrap();
    assert_eq!(encrypted.key_phase, KeyPhase::One);
    assert_eq!(encrypted.packet_number, pn(0x12a));
    assert_eq!(encrypted.payload.header_len, 6);
    assert_eq!(encrypted.payload.buffer[0], 0x44);
    assert_eq!(encrypted.payload.buffer[5], 0x2a);
    assert_eq!(encrypted.destination_connection_id(), &DCID[..]);
    let cleartext = encrypted.decrypt(&crypto).unwrap();
    assert_eq!(cleartext.destination_connection_id(), &DCID[..]);
    assert_eq!(cleartext.packet_number, pn(0x12a));
    assert_eq!(cleartext.payload[0], 0x77);
    assert_eq!(cleartext.payload.len(), 21);
}

#[test]
fn unprotect_reads_two_byte_packet_numbers() {
    let crypto = FixedMaskCrypto { mask: vec![0x00, 0xff, 0xff, 0, 0], authentic: true };
    let packet = decode(wire_packet(0x41, [!0x9b, !0x32]));
    let encrypted = packet.unprotect(&crypto, pn(0xa82f30ea)).unwrap();
    assert_eq!(encrypted.packet_number, pn(0xa82f9b32));
    assert_eq!(encrypted.key_phase, KeyPhase::Zero);
    assert_eq!(encrypted.payload.header_len, 7);
}

#[test]
fn unprotect_needs_a_full_sample() {
    let crypto = FixedMaskCrypto { mask: vec![0; 5], authentic: true };
    let mut short = vec![0x40];
    short.extend_from_slice(&DCID);
    short.extend_from_slice(&[0u8; 19]);
    let packet = decode(short);
    assert_eq!(packet.unprotect(&crypto, pn(0)).unwrap_err(), CryptoError::DecodeError);
}

#[test]
fn unprotect_refuses_a_short_mask() {
    let crypto = FixedMaskCrypto { mask: vec![0; 4], authentic: true };
    let packet = decode(wire_packet(0x40, [0, 0]));
    assert_eq!(packet.unprotect(&crypto, pn(0)).unwrap_err(), CryptoError::DecodeError);
}

#[test]
fn unprotect_refuses_a_largest_of_another_space() {
    let crypto = FixedMaskCrypto { mask: vec![0; 5], authentic: true };
    let packet = decode(wire_packet(0x40, [0, 0]));
    let largest = PacketNumber::new(PacketNumberSpace::Handshake, 0).unwrap();
    assert_eq!(packet.unprotect(&crypto, largest).unwrap_err(), CryptoError::DecodeError);
}

#[test]
fn reserved_bits_set_after_unprotection_are_a_protocol_violation() {
    // on the wire the reserved bits read zero; the mask sets both
    let crypto = FixedMaskCrypto { mask: vec![0x18, 0, 0, 0, 0], authentic: true };
    let packet = decode(wire_packet(0x41, [0x01, 0x02]));
    assert_eq!(packet.payload.buffer[0] & 0x18, 0);
    let encrypted = packet.unprotect(&crypto, pn(0x100)).unwrap();
    assert_eq!(encrypted.payload.buffer[0] & 0x18, 0x18);
    assert_eq!(encrypted.decrypt(&crypto).unwrap_err(), CryptoError::ProtocolViolation);
}

#[test]
fn failed_authentication_is_reported_before_reserved_bits() {
    let crypto = FixedMaskCrypto { mask: vec![0x18, 0, 0, 0, 0], authentic: false };
    let packet = decode(wire_packet(0x41, [0x01, 0x02]));
    let encrypted = packet.unprotect(&crypto, pn(0x100)).unwrap();
    assert_eq!(encrypted.decrypt(&crypto).unwrap_err(), CryptoError::DecryptError);
}

#[test]
fn tag_bits() {
    assert_eq!(SpinBit::from_tag(0x20), SpinBit::One);
    assert_eq!(SpinBit::from_tag(0xdf), SpinBit::Zero);
    assert_eq!(SpinBit::One.into_packet_tag_mask(), 0x20);
    assert_eq!(SpinBit::Zero.into_packet_tag_mask(), 0);
    assert_eq!(KeyPhase::from_tag(0x04), KeyPhase::One);
    assert_eq!(KeyPhase::from_tag(0xfb), KeyPhase::Zero);
    assert_eq!(KeyPhase::One.into_packet_tag_mask(), 0x04);
    assert_eq!(KeyPhase::Zero.into_packet_tag_mask(), 0);
}

#[test]
fn encode_writes_header_packet_number_and_payload() {
    let packet = Short {
        spin_bit: SpinBit::One,
        key_phase: KeyPhase::One,
        destination_connection_id: DCID.to_vec(),
        packet_number: TruncatedPacketNumber {
            space: PacketNumberSpace::ApplicationData,
            len: PacketNumberLen::new(3).unwrap(),
            value: 0x01_0203,
        },
        payload: vec![9, 8],
    };
    let mut out = vec![0xee];
    packet.encode(&mut out);
    assert_eq!(out, vec![0xee, 0x66, 0xc1, 0xc2, 0xc3, 0xc4, 0x01, 0x02, 0x03, 9, 8]);
}

#[test]
fn encoded_packet_decodes_and_unprotects_with_an_empty_mask() {
    let packet = Short {
        spin_bit: SpinBit::Zero,
        key_phase: KeyPhase::Zero,
        destination_connection_id: DCID.to_vec(),
        packet_number: pn(0x3039).truncate(pn(0x3000)).unwrap(),
        payload: (0u8..20).collect::<Vec<u8>>(),
    };
    let mut out = Vec::new();
    packet.encode(&mut out);
    let crypto = FixedMaskCrypto { mask: vec![0; 5], authentic: true };
    let decoded = decode(out);
    let encrypted = decoded.unprotect(&crypto, pn(0x3000)).unwrap();
    assert_eq!(encrypted.packet_number, pn(0x3039));
    let cleartext = encrypted.decrypt(&crypto).unwrap();
    assert_eq!(cleartext.payload, (0u8..20).collect::<Vec<u8>>());
}
