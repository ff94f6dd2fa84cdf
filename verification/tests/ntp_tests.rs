//! Tests of the NTP packet decoder against hand-written wire buffers.

use ntp_parser::classify_tail;
use ntp_parser::parse_ntp;
use ntp_parser::parse_ntp_extension;
use ntp_parser::parse_ntp_header;
use ntp_parser::parse_ntp_mac;
use ntp_parser::parse_ntpv3;
use ntp_parser::parse_ntpv4;
use ntp_parser::try_parse_extensions;
use ntp_parser::DecodeError;
use ntp_parser::NtpExtension;
use ntp_parser::NtpMac;
use ntp_parser::NtpMode;
use ntp_parser::NtpPacket;
use ntp_parser::NtpV3Packet;
use ntp_parser::NtpV4Packet;
use ntp_parser::TailClass;

fn ntp_req1() -> Vec<u8> {
    vec![
        0xd9, 0x00, 0x0a, 0xfa, 0x00, 0x00, 0x00, 0x00, 0x00, 0x01, 0x02, 0x90, 0x00, 0x00, 0x00,
        0x00, 0x00, 0x00, 0x00, 0x00, 0x00, 0x00, 0x00, 0x00, 0x00, 0x00, 0x00, 0x00, 0x00, 0x00,
        0x00, 0x00, 0x00, 0x00, 0x00, 0x00, 0x00, 0x00, 0x00, 0x00, 0xc5, 0x02, 0x04, 0xec, 0xec,
        0x42, 0xee, 0x92,
    ]
}

#[test]
fn test_ntp_packet_simple() {
    let bytes = ntp_req1();
    let expected = NtpV4Packet {
        li: 3,
        version: 3,
        mode: NtpMode(1),
        stratum: 0,
        poll: 10,
        precision: -6,
        root_delay: 0,
        root_dispersion: 0x010290,
        ref_id: 0,
        ts_ref: 0,
        ts_orig: 0,
        ts_recv: 0,
        ts_xmit: 14195914391047827090u64,
        extensions: Vec::new(),
        auth: None,
    };
    let res = parse_ntpv4(&bytes);
    assert_eq!(res, Ok((expected, 48)));
}

fn ntp_req2() -> Vec<u8> {
    vec![
        0x23, 0x00, 0x00, 0x00, 0x00, 0x00, 0x00, 0x0c, 0x00, 0x00, 0x00, 0x00, 0x00, 0x00, 0x00,
        0x00, 0x00, 0x00, 0x00, 0x00, 0x00, 0x00, 0x00, 0x00, 0x00, 0x00, 0x00, 0x00, 0x00, 0x00,
        0x00, 0x00, 0x00, 0x00, 0x00, 0x00, 0x00, 0x00, 0x00, 0x00, 0xcc, 0x25, 0xcc, 0x13, 0x2b,
        0x02, 0x10, 0x00, 0x00, 0x00, 0x00, 0x01, 0x52, 0x80, 0x0c, 0x2b, 0x59, 0x00, 0x64, 0x66,
        0x84, 0xf4, 0x4c, 0xa4, 0xee, 0xce, 0x12, 0xb8,
    ]
}

#[test]
fn test_ntp_packet_mac() {
    let bytes = ntp_req2();
    let expected = NtpV4Packet {
        li: 0,
        version: 4,
        mode: NtpMode(3),
        stratum: 0,
        poll: 0,
        precision: 0,
        root_delay: 12,
        root_dispersion: 0,
        ref_id: 0,
        ts_ref: 0,
        ts_orig: 0,
        ts_recv: 0,
        ts_xmit: 14710388140573593600,
        extensions: Vec::new(),
        auth: Some(NtpMac {
            key_id: 1,
            mac: bytes[52..].to_vec(),
        }),
    };
    let res = parse_ntpv4(&bytes);
    assert_eq!(res, Ok((expected, 68)));
}

fn ntp_req2b() -> Vec<u8> {
    vec![
        0x23, 0x00, 0x00, 0x00, 0x00, 0x00, 0x00, 0x0c, 0x00, 0x00, 0x00, 0x00, 0x00, 0x00, 0x00,
        0x00, 0x00, 0x00, 0x00, 0x00, 0x00, 0x00, 0x00, 0x00, 0x00, 0x00, 0x00, 0x00, 0x00, 0x00,
        0x00, 0x00, 0x00, 0x00, 0x00, 0x00, 0x00, 0x00, 0x00, 0x00, 0xcc, 0x25, 0xcc, 0x13, 0x2b,
        0x02, 0x10, 0x00, 0x00, 0x00, 0x00, 0x00, 0x00, 0x00, 0x00, 0x01, 0x52, 0x80, 0x0c, 0x2b,
        0x59, 0x00, 0x64, 0x66, 0x84, 0xf4, 0x4c, 0xa4, 0xee, 0xce, 0x12, 0xb8,
    ]
}

#[test]
fn test_ntp_packet_extension() {
    let bytes = ntp_req2b();
    let expected = NtpV4Packet {
        li: 0,
        version: 4,
        mode: NtpMode(3),
        stratum: 0,
        poll: 0,
        precision: 0,
        root_delay: 12,
        root_dispersion: 0,
        ref_id: 0,
        ts_ref: 0,
        ts_orig: 0,
        ts_recv: 0,
        ts_xmit: 14710388140573593600,
        extensions: vec![NtpExtension {
            field_type: 0,
            length: 0,
            value: Vec::new(),
        }],
        auth: Some(NtpMac {
            key_id: 1,
            mac: bytes[56..].to_vec(),
        }),
    };
    let res = parse_ntpv4(&bytes);
    assert_eq!(res, Ok((expected, 72)));
}

// from wireshark test captures 'ntp.pcap'
fn ntpv3_req() -> Vec<u8> {
    vec![
        0x1b, 0x04, 0x06, 0xf5, 0x00, 0x00, 0x10, 0x0d, 0x00, 0x00, 0x05, 0x57, 0x82, 0xdc, 0x18,
        0x18, 0xba, 0x29, 0x66, 0x36, 0x7d, 0xd0, 0x00, 0x00, 0xba, 0x29, 0x66, 0x36, 0x7d, 0x58,
        0x40, 0x00, 0xba, 0x29, 0x66, 0x36, 0x7d, 0xd0, 0x00, 0x00, 0xba, 0x29, 0x66, 0x76, 0x7d,
        0x50, 0x50, 0x00,
    ]
}

#[test]
fn test_ntp_packet_v3() {
    let bytes = ntpv3_req();
    let expected = NtpV3Packet {
        li: 0,
        version: 3,
        mode: NtpMode(3),
        stratum: 4,
        poll: 6,
        precision: -11,
        root_delay: 4109,
        root_dispersion: 0x0557,
        ref_id: 0x82dc1818,
        ts_ref: 0xba296636_7dd00000,
        ts_orig: 0xba296636_7d584000,
        ts_recv: 0xba296636_7dd00000,
        ts_xmit: 0xba296676_7d505000,
        authenticator: None,
    };
    let res = parse_ntpv3(&bytes);
    assert_eq!(res, Ok((expected, 48)));
}

/// A 48-byte all-zero v4 header apart from byte 0 (li 0, version 4, mode 3).
fn v4_header() -> Vec<u8> {
    let mut v = vec![0u8; 48];
    v[0] = 0x23;
    v
}

#[test]
fn scenario_no_trailer() {
    let bytes = v4_header();
    let res = parse_ntp(&bytes);
    match res {
        Ok((NtpPacket::V4(p), consumed)) => {
            assert_eq!(consumed, 48);
            assert_eq!(p.li, 0);
            assert_eq!(p.version, 4);
            assert_eq!(p.mode, NtpMode(3));
            assert_eq!(p.extensions, Vec::new());
            assert_eq!(p.auth, None);
        }
        other => panic!("expected a v4 packet, got {:?}", other),
    }
}

#[test]
fn scenario_mac_only() {
    let mut bytes = v4_header();
    bytes.extend_from_slice(&[0x00, 0x00, 0x00, 0x01]);
    let digest: Vec<u8> = (100..116).collect();
    bytes.extend_from_slice(&digest);
    assert_eq!(bytes.len(), 68);
    let res = parse_ntp(&bytes);
    match res {
        Ok((NtpPacket::V4(p), consumed)) => {
            assert_eq!(consumed, 68);
            assert_eq!(p.extensions, Vec::new());
            assert_eq!(
                p.auth,
                Some(NtpMac {
                    key_id: 1,
                    mac: digest,
                })
            );
        }
        other => panic!("expected a v4 packet, got {:?}", other),
    }
}

#[test]
fn scenario_degenerate_extension() {
    let mut bytes = v4_header();
    bytes.extend_from_slice(&[0x00, 0x00, 0x00, 0x00]);
    bytes.extend_from_slice(&[0x00, 0x00, 0x00, 0x01]);
    let digest: Vec<u8> = (1..=16).collect();
    bytes.extend_from_slice(&digest);
    assert_eq!(bytes.len(), 72);
    let res = parse_ntp(&bytes);
    match res {
        Ok((NtpPacket::V4(p), consumed)) => {
            assert_eq!(consumed, 72);
            assert_eq!(
                p.extensions,
                vec![NtpExtension {
                    field_type: 0,
                    length: 0,
                    value: Vec::new(),
                }]
            );
            assert_eq!(
                p.auth,
                Some(NtpMac {
                    key_id: 1,
                    mac: digest,
                })
            );
        }
        other => panic!("expected a v4 packet, got {:?}", other),
    }
}

#[test]
fn scenario_invalid_tail_length() {
    let mut bytes = v4_header();
    bytes.extend_from_slice(&[0u8; 10]);
    assert_eq!(bytes.len(), 58);
    assert_eq!(parse_ntp(&bytes), Err(DecodeError::InvalidLength));
}

#[test]
fn scenario_truncated_header() {
    let bytes = vec![0x23u8; 30];
    assert_eq!(parse_ntp(&bytes), Err(DecodeError::TruncatedInput));
}

#[test]
fn scenario_unsupported_version() {
    let mut bytes = vec![0u8; 48];
    bytes[0] = 0x28; // li 0, version 5, mode 0
    assert_eq!(parse_ntp(&bytes), Err(DecodeError::UnsupportedVersion));
}

#[test]
fn unsupported_versions_all() {
    for version in [0u8, 1, 2, 5, 6, 7] {
        let mut bytes = vec![0u8; 48];
        bytes[0] = version << 3;
        assert_eq!(
            parse_ntp(&bytes),
            Err(DecodeError::UnsupportedVersion),
            "version {}",
            version
        );
    }
}

#[test]
fn tail_classifier_exhaustive() {
    for r in 0..=25usize {
        let expected = if r == 0 {
            TailClass::NoTrailer
        } else if r == 20 {
            TailClass::MacOnly
        } else if r > 20 {
            TailClass::ExtensionsAndMac
        } else {
            TailClass::Invalid
        };
        assert_eq!(classify_tail(r), expected, "remaining length {}", r);
    }
}

#[test]
fn header_fields_decoded_big_endian() {
    let bytes = ntpv3_req();
    let h = parse_ntp_header(&bytes).unwrap();
    assert_eq!(h.li, 0);
    assert_eq!(h.version, 3);
    assert_eq!(h.mode, NtpMode(3));
    assert_eq!(h.stratum, 4);
    assert_eq!(h.poll, 6);
    assert_eq!(h.precision, -11);
    assert_eq!(h.root_delay, 4109);
    assert_eq!(h.root_dispersion, 0x0557);
    assert_eq!(h.ref_id, 0x82dc1818);
    assert_eq!(h.ts_ref, 0xba296636_7dd00000);
    assert_eq!(h.ts_orig, 0xba296636_7d584000);
    assert_eq!(h.ts_recv, 0xba296636_7dd00000);
    assert_eq!(h.ts_xmit, 0xba296676_7d505000);
}

#[test]
fn header_too_short() {
    let bytes = vec![0u8; 47];
    assert_eq!(parse_ntp_header(&bytes), Err(DecodeError::TruncatedInput));
}

#[test]
fn extension_with_value_bytes() {
    // length 12 declares the 4-byte header plus 8 value bytes
    let mut buf = vec![0x01u8, 0x02, 0x00, 0x0c];
    let value: Vec<u8> = (20..28).collect();
    buf.extend_from_slice(&value);
    let res = parse_ntp_extension(&buf);
    assert_eq!(
        res,
        Ok((
            NtpExtension {
                field_type: 0x0102,
                length: 12,
                value,
            },
            12
        ))
    );
}

#[test]
fn extension_declared_length_too_long() {
    // length 12 needs 8 value bytes but only 4 follow
    let buf = vec![0x01u8, 0x02, 0x00, 0x0c, 0xaa, 0xbb, 0xcc, 0xdd];
    assert_eq!(parse_ntp_extension(&buf), Err(DecodeError::TruncatedInput));
}

#[test]
fn extension_header_too_short() {
    let buf = vec![0x01u8, 0x02, 0x00];
    assert_eq!(parse_ntp_extension(&buf), Err(DecodeError::TruncatedInput));
}

#[test]
fn v4_extension_run_and_mac() {
    let mut bytes = v4_header();
    // one extension of declared length 12
    bytes.extend_from_slice(&[0x01, 0x02, 0x00, 0x0c]);
    let value: Vec<u8> = (20..28).collect();
    bytes.extend_from_slice(&value);
    // the 20-byte authenticator
    bytes.extend_from_slice(&[0x00, 0x00, 0x00, 0x07]);
    let digest: Vec<u8> = (40..56).collect();
    bytes.extend_from_slice(&digest);
    assert_eq!(bytes.len(), 80);
    let (p, consumed) = parse_ntpv4(&bytes).unwrap();
    assert_eq!(consumed, 80);
    assert_eq!(
        p.extensions,
        vec![NtpExtension {
            field_type: 0x0102,
            length: 12,
            value,
        }]
    );
    assert_eq!(
        p.auth,
        Some(NtpMac {
            key_id: 7,
            mac: digest,
        })
    );
}

#[test]
fn v4_extension_region_truncated() {
    let mut bytes = v4_header();
    // the extension declares more value bytes than the region holds
    bytes.extend_from_slice(&[0x01, 0x02, 0x00, 0x20]);
    bytes.extend_from_slice(&[0u8; 20]);
    assert_eq!(bytes.len(), 72);
    assert_eq!(parse_ntpv4(&bytes), Err(DecodeError::TruncatedInput));
}

#[test]
fn try_parse_extensions_boundaries() {
    assert_eq!(try_parse_extensions(&[]), Ok((Vec::new(), 0)));
    assert_eq!(try_parse_extensions(&[0u8; 20]), Ok((Vec::new(), 0)));
    assert_eq!(
        try_parse_extensions(&[0u8; 19]),
        Err(DecodeError::InvalidLength)
    );
    assert_eq!(
        try_parse_extensions(&[0u8; 1]),
        Err(DecodeError::InvalidLength)
    );
    // 24 bytes: a 4-byte degenerate extension, then the 20 MAC bytes
    let (exts, consumed) = try_parse_extensions(&[0u8; 24]).unwrap();
    assert_eq!(consumed, 4);
    assert_eq!(
        exts,
        vec![NtpExtension {
            field_type: 0,
            length: 0,
            value: Vec::new(),
        }]
    );
}

#[test]
fn mac_decoder_exact_and_short() {
    let mut buf = vec![0x00u8, 0x00, 0x01, 0x00];
    let digest: Vec<u8> = (60..76).collect();
    buf.extend_from_slice(&digest);
    assert_eq!(
        parse_ntp_mac(&buf),
        Ok(NtpMac {
            key_id: 256,
            mac: digest,
        })
    );
    assert_eq!(parse_ntp_mac(&buf[..19]), Err(DecodeError::TruncatedInput));
}

#[test]
fn v3_with_legacy_authenticator() {
    let mut bytes = ntpv3_req();
    let auth: Vec<u8> = (1..=12).collect();
    bytes.extend_from_slice(&auth);
    assert_eq!(bytes.len(), 60);
    let (p, consumed) = parse_ntpv3(&bytes).unwrap();
    assert_eq!(consumed, 60);
    assert_eq!(p.authenticator, Some(auth));
}

#[test]
fn v3_other_tail_lengths_rejected() {
    for extra in [1usize, 5, 11, 13, 20] {
        let mut bytes = ntpv3_req();
        bytes.extend_from_slice(&vec![0u8; extra]);
        assert_eq!(
            parse_ntpv3(&bytes),
            Err(DecodeError::InvalidLength),
            "{} trailing bytes",
            extra
        );
    }
}

#[test]
fn dispatch_returns_v3_variant() {
    let bytes = ntpv3_req();
    match parse_ntp(&bytes) {
        Ok((NtpPacket::V3(p), consumed)) => {
            assert_eq!(consumed, 48);
            assert_eq!(p.version, 3);
            assert_eq!(p.stratum, 4);
        }
        other => panic!("expected a v3 packet, got {:?}", other),
    }
}

#[test]
fn empty_input_is_truncated() {
    assert_eq!(parse_ntp(&[]), Err(DecodeError::TruncatedInput));
}
