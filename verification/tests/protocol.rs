use ut61eplus::decoder::{
    decode_measurement, parse_auto_manual, parse_hold, parse_minmax, parse_mode, parse_rel,
    parse_unit,
};
use ut61eplus::display::{parse_display_ascii, parse_number, Number};
use ut61eplus::framer::{decode_frame, device_ids, encode_command, frame_for, measurement_command};

#[test]
fn measurement_command_bytes() {
    assert_eq!(measurement_command(), vec![0xAB, 0xCD, 0x03, 0x5E, 0x01, 0xD9]);
}

#[test]
fn encode_command_prefixes_length() {
    let cmd = measurement_command();
    let encoded = encode_command(&cmd);
    assert_eq!(encoded, vec![0x06, 0xAB, 0xCD, 0x03, 0x5E, 0x01, 0xD9]);
}

#[test]
fn encode_command_empty() {
    let encoded = encode_command(&[]);
    assert_eq!(encoded, vec![0x00]);
}

#[test]
fn device_id_allowlist() {
    assert_eq!(device_ids(), vec![(0x1A86, 0xE429), (0x10C4, 0xEA80)]);
}

#[test]
fn mode_table_defined_codes() {
    let table: &[(u8, &str)] = &[
        (0, "V_AC"),
        (24, "V_AC_LPF"),
        (2, "V_DC"),
        (25, "V_AC_DC"),
        (1, "mV_AC"),
        (3, "mV_DC"),
        (6, "Resistance Ω"),
        (7, "Continuity 🕪"),
        (8, "Diode 𜰏"),
        (9, "Capacitance 𜰓"),
        (4, "Hz"),
        (5, "%"),
        (18, "Transistor gain 𜰐 β hFE"),
        (12, "μA_DC"),
        (13, "μA_AC"),
        (14, "mA_DC"),
        (15, "mA_AC"),
        (16, "A_DC"),
        (17, "A_AC"),
        (20, "NCV"),
    ];
    for &(code, label) in table {
        assert_eq!(parse_mode(code), label, "mode code {}", code);
    }
}

#[test]
fn mode_table_unknown_codes() {
    for code in [10u8, 11, 19, 21, 22, 23, 26, 30, 100, 255] {
        assert_eq!(parse_mode(code), "?", "mode code {}", code);
    }
}

#[test]
fn unit_table_defined_pairs() {
    let table: &[(u8, u8, u8, &str)] = &[
        // (mode, first accepted range, last accepted range, unit)
        (0, 0x30, 0x33, "V"),
        (24, 0x30, 0x33, "V"),
        (2, 0x30, 0x33, "V"),
        (25, 0x30, 0x33, "V"),
        (1, 0x30, 0x30, "mV"),
        (3, 0x30, 0x30, "mV"),
        (6, 0x30, 0x30, "Ω"),
        (6, 0x31, 0x33, "kΩ"),
        (6, 0x34, 0x36, "MΩ"),
        (7, 0x30, 0x36, "Ω"),
        (8, 0x30, 0x30, "V"),
        (9, 0x30, 0x31, "nF"),
        (9, 0x32, 0x34, "μF"),
        (9, 0x35, 0x36, "mF"),
        (4, 0x30, 0x31, "Hz"),
        (4, 0x32, 0x34, "kHz"),
        (4, 0x35, 0x37, "MHz"),
        (5, 0x30, 0x30, "%"),
        (18, 0x30, 0x30, "β"),
        (12, 0x30, 0x31, "μA"),
        (13, 0x30, 0x31, "μA"),
        (14, 0x30, 0x31, "mA"),
        (15, 0x30, 0x31, "mA"),
        (16, 0x31, 0x31, "A"),
        (17, 0x31, 0x31, "A"),
        (20, 0x30, 0x30, "NCV"),
    ];
    for &(mode, lo, hi, unit) in table {
        for range in lo..=hi {
            assert_eq!(parse_unit(mode, range), unit, "mode {} range {:#x}", mode, range);
        }
    }
}

#[test]
fn unit_table_rejected_ranges() {
    // Range codes just outside each mode's accepted subset.
    assert_eq!(parse_unit(0, 0x34), "?");
    assert_eq!(parse_unit(0, 0x2F), "?");
    assert_eq!(parse_unit(1, 0x31), "?");
    assert_eq!(parse_unit(6, 0x37), "?");
    assert_eq!(parse_unit(7, 0x37), "?");
    assert_eq!(parse_unit(8, 0x31), "?");
    assert_eq!(parse_unit(9, 0x37), "?");
    assert_eq!(parse_unit(4, 0x38), "?");
    assert_eq!(parse_unit(5, 0x31), "?");
    assert_eq!(parse_unit(18, 0x31), "?");
    assert_eq!(parse_unit(12, 0x32), "?");
    assert_eq!(parse_unit(14, 0x32), "?");
    assert_eq!(parse_unit(16, 0x30), "?");
    assert_eq!(parse_unit(16, 0x32), "?");
    assert_eq!(parse_unit(20, 0x31), "?");
    // Unrecognized mode.
    assert_eq!(parse_unit(99, 0x30), "?");
}

#[test]
fn decode_frame_empty_read() {
    let buf = [0u8; 64];
    assert_eq!(decode_frame(&buf, 0), None);
}

#[test]
fn decode_frame_short_buffer() {
    // 4 bytes or fewer after stripping the length prefix: discarded.
    for n in 1..=4 {
        let buf = [0x05, 0xAB, 0xCD, 0x02, 0x00];
        assert_eq!(decode_frame(&buf[..n], n), None, "read of {} bytes", n);
    }
}

#[test]
fn decode_frame_bad_header() {
    let buf = [0x06, 0xAC, 0xCD, 0x02, 0x11, 0x22, 0x33];
    assert_eq!(decode_frame(&buf, 7), None);
    let buf = [0x06, 0xAB, 0xCE, 0x02, 0x11, 0x22, 0x33];
    assert_eq!(decode_frame(&buf, 7), None);
}

#[test]
fn decode_frame_declared_length_too_long() {
    // Declared payload length 10, but only 4 bytes follow the length byte.
    let buf = [0x08, 0xAB, 0xCD, 0x0A, 0x11, 0x22, 0x33, 0x44];
    assert_eq!(decode_frame(&buf, 8), None);
}

#[test]
fn decode_frame_declared_length_too_short() {
    // A declared length that cannot even cover the checksum bytes.
    let buf = [0x08, 0xAB, 0xCD, 0x01, 0x11, 0x22, 0x33, 0x44];
    assert_eq!(decode_frame(&buf, 8), None);
    let buf = [0x08, 0xAB, 0xCD, 0x00, 0x11, 0x22, 0x33, 0x44];
    assert_eq!(decode_frame(&buf, 8), None);
}

#[test]
fn decode_frame_strips_checksum() {
    // reportLen, AB, CD, payloadLen=4, payload a b, checksum c1 c2.
    let buf = [0x07, 0xAB, 0xCD, 0x04, 0x61, 0x62, 0x99, 0x88];
    assert_eq!(decode_frame(&buf, 8), Some(vec![0x61, 0x62]));
}

#[test]
fn frame_round_trip_small() {
    let payload = vec![0x01, 0x02];
    let frame = frame_for(&payload, 0xDE, 0xAD);
    let n = frame.len();
    assert_eq!(decode_frame(&frame, n), Some(payload));
}

#[test]
fn frame_round_trip_sizes() {
    // Any payload of 2 to 61 bytes survives framing and unframing,
    // whatever the checksum bytes hold.
    for len in 2..=61u8 {
        let payload: Vec<u8> = (0..len).map(|i| i.wrapping_mul(37)).collect();
        for checksum in [(0x00, 0x00), (0xFF, 0x13)] {
            let frame = frame_for(&payload, checksum.0, checksum.1);
            let n = frame.len();
            assert_eq!(decode_frame(&frame, n), Some(payload.clone()), "payload of {}", len);
        }
    }
}

#[test]
fn display_strips_spaces() {
    let payload = [0x06, 0x31, b' ', b'1', b' ', b'2', b'.', b'3', b' ', 0x30, 0x30];
    assert_eq!(parse_display_ascii(&payload), b"12.3".to_vec());
}

#[test]
fn display_short_payload_is_unknown() {
    assert_eq!(parse_display_ascii(&[0x06, 0x31, b'1']), b"?".to_vec());
}

#[test]
fn number_plain() {
    assert_eq!(
        parse_number(b"12.34"),
        Some(Number { negative: false, mantissa: 1234, frac_digits: 2 })
    );
    assert_eq!(
        parse_number(b"0.0"),
        Some(Number { negative: false, mantissa: 0, frac_digits: 1 })
    );
    assert_eq!(
        parse_number(b"9999999"),
        Some(Number { negative: false, mantissa: 9999999, frac_digits: 0 })
    );
}

#[test]
fn number_signs() {
    assert_eq!(
        parse_number(b"-1.5"),
        Some(Number { negative: true, mantissa: 15, frac_digits: 1 })
    );
    assert_eq!(
        parse_number(b"+1.5"),
        Some(Number { negative: false, mantissa: 15, frac_digits: 1 })
    );
}

#[test]
fn number_dot_edges() {
    assert_eq!(
        parse_number(b"1."),
        Some(Number { negative: false, mantissa: 1, frac_digits: 0 })
    );
    assert_eq!(
        parse_number(b".5"),
        Some(Number { negative: false, mantissa: 5, frac_digits: 1 })
    );
    assert_eq!(parse_number(b"."), None);
    assert_eq!(parse_number(b"1.2.3"), None);
}

#[test]
fn number_rejects_non_numbers() {
    assert_eq!(parse_number(b""), None);
    assert_eq!(parse_number(b"-"), None);
    assert_eq!(parse_number(b"+"), None);
    assert_eq!(parse_number(b"?"), None);
    assert_eq!(parse_number(b"OL"), None);
    assert_eq!(parse_number(b"1O2"), None);
}

#[test]
fn flag_bits() {
    // 0x01: REL active, HOLD inactive.
    assert_eq!(parse_rel(0x01), "REL");
    assert_eq!(parse_hold(0x01), "");
    assert_eq!(parse_minmax(0x01), "");
    // 0x02: HOLD active, REL inactive.
    assert_eq!(parse_rel(0x02), "");
    assert_eq!(parse_hold(0x02), "HOLD");
    // 0x03: both active.
    assert_eq!(parse_rel(0x03), "REL");
    assert_eq!(parse_hold(0x03), "HOLD");
    // 56: MAX by whole-byte match, regardless of its bit pattern.
    assert_eq!(parse_minmax(56), "MAX");
    assert_eq!(parse_rel(56), "");
    assert_eq!(parse_hold(56), "");
    // 52: MIN by whole-byte match; bit 2 of 52 is not REL/HOLD.
    assert_eq!(parse_minmax(52), "MIN");
    assert_eq!(parse_rel(52), "");
    assert_eq!(parse_hold(52), "");
    // An idle flag byte.
    assert_eq!(parse_minmax(0x30), "");
}

#[test]
fn auto_manual_codes() {
    assert_eq!(parse_auto_manual(48), "AUTO");
    assert_eq!(parse_auto_manual(52), "MANUAL");
    assert_eq!(parse_auto_manual(0), "?");
    assert_eq!(parse_auto_manual(56), "?");
}

#[test]
fn end_to_end_resistance_reading() {
    // Mode 6 (resistance), range 0x31 (kΩ), display "12.34", idle flag
    // byte 0x30, auto byte 0x30.
    let payload = [
        0x06, 0x31, b'1', b'2', b'.', b'3', b'4', b' ', b' ', 0x30, 0x30, 0x00,
    ];
    let m = decode_measurement(&payload).expect("payload decodes");
    assert_eq!(m.value, Number { negative: false, mantissa: 1234, frac_digits: 2 });
    assert_eq!(m.unit, "kΩ");
    assert_eq!(m.mode, "Resistance Ω");
    assert_eq!(m.auto_manual, "AUTO");
    assert_eq!(m.rel, "");
    assert_eq!(m.hold, "");
    assert_eq!(m.minmax, "");
}

#[test]
fn end_to_end_through_framer() {
    let payload = [
        0x06, 0x31, b'1', b'2', b'.', b'3', b'4', b' ', b' ', 0x30, 0x30, 0x00,
    ];
    let frame = frame_for(&payload, 0x12, 0x34);
    let n = frame.len();
    let unwrapped = decode_frame(&frame, n).expect("frame decodes");
    assert_eq!(unwrapped, payload.to_vec());
    let m = decode_measurement(&unwrapped).expect("payload decodes");
    assert_eq!(m.value, Number { negative: false, mantissa: 1234, frac_digits: 2 });
    assert_eq!(m.unit, "kΩ");
}

#[test]
fn flag_and_auto_positions_read_independently() {
    // 52 means MIN in the flag position (third to last) and MANUAL in the
    // auto/manual position (second to last); both fire at once here.
    let payload = [
        0x06, 0x31, b'1', b'2', b'.', b'3', b'4', b' ', b' ', 52, 52, 0x00,
    ];
    let m = decode_measurement(&payload).expect("payload decodes");
    assert_eq!(m.minmax, "MIN");
    assert_eq!(m.auto_manual, "MANUAL");
    assert_eq!(m.rel, "");
    assert_eq!(m.hold, "");
}

#[test]
fn minmax_and_hold_not_exclusive() {
    // 56 (0x38) matches MAX by whole-byte equality while its bit 1 does not
    // read as HOLD; 0x03 sets REL and HOLD together with no MIN/MAX.
    let payload = [
        0x06, 0x31, b'1', b'2', b'.', b'3', b'4', b' ', b' ', 0x03, 48, 0x00,
    ];
    let m = decode_measurement(&payload).expect("payload decodes");
    assert_eq!(m.rel, "REL");
    assert_eq!(m.hold, "HOLD");
    assert_eq!(m.minmax, "");
}

#[test]
fn blank_display_yields_no_measurement() {
    let payload = [
        0x06, 0x31, b' ', b' ', b' ', b' ', b' ', b' ', b' ', 0x30, 0x30, 0x00,
    ];
    assert_eq!(decode_measurement(&payload).is_none(), true);
}

#[test]
fn short_payload_yields_no_measurement() {
    assert!(decode_measurement(&[0x06, 0x31, b'1']).is_none());
    assert!(decode_measurement(&[]).is_none());
}

#[test]
fn negative_reading_decodes() {
    let payload = [
        0x02, 0x30, b'-', b'0', b'.', b'5', b' ', b' ', b' ', 0x30, 52, 0x00,
    ];
    let m = decode_measurement(&payload).expect("payload decodes");
    assert_eq!(m.value, Number { negative: true, mantissa: 5, frac_digits: 1 });
    assert_eq!(m.unit, "V");
    assert_eq!(m.mode, "V_DC");
    assert_eq!(m.auto_manual, "MANUAL");
}
