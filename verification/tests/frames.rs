use can_utils_rs::dump::format::{format_frame, format_timestamp};
use can_utils_rs::send::live::{can_frame, SendError};
use can_utils_rs::send::parse::{parse_can_data, parse_can_id, FrameError, SendFrame};
use can_utils_rs::send::prompt::{
    cyclic_frequency_banner, cyclic_interval_banner, frequency_of_interval,
    interval_for_frequency, parse_frequency_hz, parse_interval_millis, send_banner, send_modes,
    sent_line, SendMode, TimingError,
};
use socketcan::{EmbeddedFrame, Frame};

const ESC: &str = "\u{1b}";

#[test]
fn frame_line_colors_each_part() {
    let line = format_frame("(1.000002)", "vcan0", 0x7FF, &[0x00, 0x11]);
    let expected = format!(
        "{e}[2m(1.000002){e}[0m {e}[36mvcan0{e}[39m {e}[1m{e}[34m7FF{e}[39m{e}[0m#{e}[91m00{e}[39m {e}[93m11{e}[39m",
        e = ESC
    );
    assert_eq!(line, expected);
}

#[test]
fn frame_line_byte_colors_repeat_every_eight() {
    let data: Vec<u8> = (0u8..9).collect();
    let line = format_frame("t", "can0", 0x5, &data);
    let codes = ["91", "93", "92", "95", "96", "97", "94", "92", "91"];
    let mut payload = String::new();
    for (i, b) in data.iter().enumerate() {
        if i > 0 {
            payload.push(' ');
        }
        payload.push_str(&format!("{e}[{c}m{b:02X}{e}[39m", e = ESC, c = codes[i], b = b));
    }
    assert!(line.ends_with(&format!("{e}[1m{e}[34m005{e}[39m{e}[0m#{p}", e = ESC, p = payload)));
}

#[test]
fn frame_line_without_payload() {
    let line = format_frame("t", "can0", 0x1ABCDEF, &[]);
    assert!(line.ends_with(&format!("{e}[1m{e}[34m1ABCDEF{e}[39m{e}[0m#", e = ESC)));
}

#[test]
fn timestamps_pad_microseconds() {
    assert_eq!(format_timestamp(1773430351, 545039), "(1773430351.545039)");
    assert_eq!(format_timestamp(0, 7), "(0.000007)");
}

#[test]
fn frames_render_compact_and_spaced() {
    let frame = SendFrame { id: 0x12, data: vec![0x11, 0x22, 0xAB] };
    assert_eq!(frame.format_compact(), "012#1122AB");
    assert_eq!(frame.format_spaced(), "012#11 22 AB");
    let empty = SendFrame { id: 0x7FF, data: Vec::new() };
    assert_eq!(empty.format_compact(), "7FF#");
    assert_eq!(empty.format_spaced(), "7FF#");
}

#[test]
fn identifiers_parse_as_hex_up_to_7ff() {
    assert_eq!(parse_can_id(" 123 "), Ok(0x123));
    assert_eq!(parse_can_id("7ff"), Ok(0x7FF));
    assert_eq!(parse_can_id("+10"), Ok(0x10));
    assert_eq!(parse_can_id("  "), Err(FrameError::EmptyId));
    assert_eq!(parse_can_id("0x12"), Err(FrameError::IdNotHexadecimal));
    assert_eq!(parse_can_id("800"), Err(FrameError::IdOutOfRange));
    assert_eq!(parse_can_id("100000000"), Err(FrameError::IdNotHexadecimal));
}

#[test]
fn payloads_parse_as_two_digit_bytes() {
    assert_eq!(parse_can_data(""), Ok(vec![]));
    assert_eq!(parse_can_data(" 11 22\t33  44 "), Ok(vec![0x11, 0x22, 0x33, 0x44]));
    assert_eq!(
        parse_can_data("00 01 02 03 04 05 06 07 08"),
        Err(FrameError::TooManyBytes)
    );
    assert_eq!(parse_can_data("1 22"), Err(FrameError::ByteNotTwoDigits));
    assert_eq!(parse_can_data("€"), Err(FrameError::ByteNotTwoDigits));
    assert_eq!(parse_can_data("é"), Err(FrameError::InvalidByte("é".to_string())));
    assert_eq!(parse_can_data("11 zz"), Err(FrameError::InvalidByte("zz".to_string())));
    assert_eq!(parse_can_data("+1"), Ok(vec![0x01]));
}

#[test]
fn frame_error_messages() {
    assert_eq!(FrameError::EmptyId.message(), "CAN ID cannot be empty");
    assert_eq!(FrameError::IdNotHexadecimal.message(), "CAN ID must be valid hexadecimal");
    assert_eq!(FrameError::IdOutOfRange.message(), "CAN ID must be <= 7FF for standard CAN");
    assert_eq!(FrameError::TooManyBytes.message(), "CAN data may contain at most 8 bytes");
    assert_eq!(
        FrameError::ByteNotTwoDigits.message(),
        "Each byte must be exactly 2 hexadecimal characters"
    );
    assert_eq!(FrameError::InvalidByte("zz".to_string()).message(), "Invalid hex byte 'zz'");
}

#[test]
fn shown_frames_read_back() {
    let frame = SendFrame { id: 0x0A5, data: vec![0x00, 0xFF, 0x10, 0x01, 0x02, 0x03, 0x04, 0x05] };
    let shown = frame.format_spaced();
    let (id_text, data_text) = shown.split_once('#').unwrap();
    assert_eq!(parse_can_id(id_text), Ok(frame.id));
    assert_eq!(parse_can_data(data_text), Ok(frame.data.clone()));
}

#[test]
fn socketcan_frame_carries_identifier_and_payload() {
    let frame = SendFrame { id: 0x123, data: vec![1, 2, 3] };
    let f = can_frame(&frame).ok().unwrap();
    assert_eq!(f.raw_id(), 0x123);
    assert_eq!(f.data(), &vec![1, 2, 3]);
    let socket_frame = f.into_frame();
    assert_eq!(socket_frame.raw_id(), 0x123);
    assert_eq!(socket_frame.data(), &[1, 2, 3]);
    assert!(!socket_frame.is_extended());
}

#[test]
fn socketcan_frame_refusals() {
    let too_high = SendFrame { id: 0x800, data: vec![] };
    assert_eq!(can_frame(&too_high).err(), Some(SendError::InvalidStandardId(0x800)));
    assert_eq!(
        SendError::InvalidStandardId(0x800).message(),
        "invalid standard CAN ID 800"
    );
    assert_eq!(SendError::InvalidStandardId(0x5).message(), "invalid standard CAN ID 005");
    let too_long = SendFrame { id: 0x1, data: vec![0; 9] };
    assert_eq!(can_frame(&too_long).err(), Some(SendError::FrameConstruction));
    assert_eq!(SendError::FrameConstruction.message(), "failed to create CAN frame");
    // The identifier is cut to 16 bits before the range check.
    let wrapped = SendFrame { id: 0x1_0123, data: vec![] };
    let wrapped_frame = can_frame(&wrapped).ok().unwrap();
    assert_eq!(wrapped_frame.raw_id(), 0x123);
    assert_eq!(wrapped_frame.into_frame().raw_id(), 0x123);
}

#[test]
fn send_mode_texts() {
    assert_eq!(
        send_modes(),
        vec![
            SendMode::Once,
            SendMode::ManualRepeat,
            SendMode::CyclicInterval,
            SendMode::CyclicFrequency
        ]
    );
    assert_eq!(SendMode::Once.text(), "Send once then exit");
    assert_eq!(SendMode::ManualRepeat.text(), "Send once each time manually");
    assert_eq!(SendMode::CyclicInterval.text(), "Send cyclically with interval");
    assert_eq!(SendMode::CyclicFrequency.text(), "Send cyclically with frequency");
}

#[test]
fn timings_parse_as_decimal() {
    assert_eq!(parse_interval_millis(" 100 "), Ok(100));
    assert_eq!(parse_interval_millis("1.5"), Err(TimingError::Interval));
    assert_eq!(parse_frequency_hz("10"), Ok(10));
    assert_eq!(parse_frequency_hz("-3"), Err(TimingError::Frequency));
    assert_eq!(TimingError::Interval.message(), "interval must be a valid positive integer");
    assert_eq!(TimingError::Frequency.message(), "frequency must be a valid positive integer");
    assert_eq!(interval_for_frequency(10), 100);
    assert_eq!(interval_for_frequency(3), 333);
    assert_eq!(interval_for_frequency(2000), 0);
    assert_eq!(frequency_of_interval(333), 3);
}

#[test]
fn send_banners() {
    let frame = SendFrame { id: 0x123, data: vec![0x11] };
    let lines = send_banner("can0", &frame);
    assert_eq!(lines.len(), 6);
    assert_eq!(lines[0], "");
    assert_eq!(
        lines[2],
        format!("{e}[1mSending on{e}[0m {e}[1m{e}[36mcan0{e}[39m{e}[0m", e = ESC)
    );
    assert_eq!(lines[3], format!("{e}[1mFrame:{e}[0m {e}[32m123#11{e}[39m", e = ESC));
    assert_eq!(sent_line(), format!("{e}[1m{e}[32mFrame sent.{e}[39m{e}[0m", e = ESC));
    let cyc = cyclic_interval_banner("can0", &frame, 250);
    assert_eq!(cyc.len(), 7);
    assert_eq!(cyc[4], format!("{e}[1mInterval:{e}[0m {e}[32m250{e}[39m ms", e = ESC));
    let freq = cyclic_frequency_banner("can0", &frame, 100);
    assert_eq!(freq[4], format!("{e}[1mFrequency:{e}[0m {e}[32m10{e}[39m hz", e = ESC));
    assert_eq!(freq[5], format!("{e}[33mPress Ctrl+C to stop.{e}[39m", e = ESC));
}

fn strip_escapes(s: &str) -> String {
    let mut out = String::new();
    let mut chars = s.chars();
    while let Some(c) = chars.next() {
        if c == '\u{1b}' {
            for d in chars.by_ref() {
                if d == 'm' {
                    break;
                }
            }
        } else {
            out.push(c);
        }
    }
    out
}

#[test]
fn dump_line_reads_like_candump_without_colors() {
    let ts = format_timestamp(1773430351, 545039);
    let line = format_frame(&ts, "vcan0", 0x7FF, &[0x00, 0x11, 0x22, 0x33, 0x44, 0x55, 0x66]);
    assert_eq!(strip_escapes(&line), "(1773430351.545039) vcan0 7FF#00 11 22 33 44 55 66");
}

#[test]
fn spaced_text_is_compact_text_with_single_spaces() {
    for data in [vec![], vec![0x01], vec![0xAA, 0xBB, 0x0C, 0x00, 0xFF]] {
        let frame = SendFrame { id: 0x2A, data };
        let spaced = frame.format_spaced();
        assert_eq!(spaced.replace(' ', ""), frame.format_compact());
        assert_eq!(spaced.matches(' ').count(), frame.data.len().saturating_sub(1));
    }
}
