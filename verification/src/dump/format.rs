//! The colored one-line rendering of a received CAN frame.
use vstd::prelude::*;

use crate::colors::{
    blue, bold, bright_blue, bright_cyan, bright_green, bright_magenta, bright_red, bright_white,
    bright_yellow, cyan, dimmed, fg, styled,
};

use crate::text::{
    chars_of, dec_text, hex_text, push_dec, push_dec_padded, push_hex, push_str, string_of, trim_end,
    trim_end_chars, zero_pad,
};

verus! {

/// The color code of the byte at `index` of a payload; the colors repeat
/// every eight bytes.
pub open spec fn byte_color(index: int) -> Seq<char> {
    let k = index % 8;
    if k == 0 {
        seq!['9', '1']
    } else if k == 1 {
        seq!['9', '3']
    } else if k == 2 {
        seq!['9', '2']
    } else if k == 3 {
        seq!['9', '5']
    } else if k == 4 {
        seq!['9', '6']
    } else if k == 5 {
        seq!['9', '7']
    } else if k == 6 {
        seq!['9', '4']
    } else {
        seq!['9', '2']
    }
}

/// Each byte as two colored hexadecimal digits followed by a space.
pub open spec fn spaced_payload(data: Seq<u8>) -> Seq<char>
    decreases data.len(),
{
    if data.len() == 0 {
        Seq::empty()
    } else {
        spaced_payload(data.drop_last()) + fg(byte_color(data.len() - 1), hex_text(
            data.last() as nat,
            2,
        )) + seq![' ']
    }
}

/// `timestamp iface ID#B0 B1 ...`: the timestamp dimmed, the interface in
/// cyan, the identifier (at least three hexadecimal digits) in bold blue,
/// and the payload bytes colored in turn, with the trailing space removed.
pub open spec fn spec_frame_line(timestamp: Seq<char>, iface: Seq<char>, id: u32, data: Seq<u8>) -> Seq<
    char,
> {
    styled(seq!['2'], timestamp) + seq![' '] + fg(seq!['3', '6'], iface) + seq![' '] + styled(
        seq!['1'],
        fg(seq!['3', '4'], hex_text(id as nat, 3)),
    ) + seq!['#'] + trim_end(spaced_payload(data))
}

fn colored_byte(byte: u8, index: usize) -> (res: String)
    ensures
        res@ == fg(byte_color(index as int), hex_text(byte as nat, 2)),
{
    let mut digits = String::new();
    push_hex(&mut digits, byte as u64, 2);
    let d = digits.as_str();
    match index % 8 {
        0 => bright_red(d),
        1 => bright_yellow(d),
        2 => bright_green(d),
        3 => bright_magenta(d),
        4 => bright_cyan(d),
        5 => bright_white(d),
        6 => bright_blue(d),
        _ => bright_green(d),
    }
}

/// Renders a received frame as one colored line.
pub fn format_frame(timestamp: &str, iface: &str, id: u32, data: &[u8]) -> (res: String)
    ensures
        res@ == spec_frame_line(timestamp@, iface@, id, data@),
{
    let mut payload = String::new();
    let mut i: usize = 0;
    while i < data.len()
        invariant
            i <= data.len(),
            payload@ == spaced_payload(data@.take(i as int)),
        decreases data.len() - i,
    {
        proof {
            assert(data@.take(i + 1).drop_last() =~= data@.take(i as int));
        }
        let piece = colored_byte(data[i], i);
        push_str(&mut payload, piece.as_str());
        payload.push(' ');
        i = i + 1;
    }
    assert(data@.take(data.len() as int) =~= data@);
    let payload_chars = chars_of(payload.as_str());
    let trimmed = string_of(&trim_end_chars(&payload_chars));
    let mut id_digits = String::new();
    push_hex(&mut id_digits, id as u64, 3);
    let id_text = bold(blue(id_digits.as_str()).as_str());
    let mut out = dimmed(timestamp);
    out.push(' ');
    push_str(&mut out, cyan(iface).as_str());
    out.push(' ');
    push_str(&mut out, id_text.as_str());
    out.push('#');
    push_str(&mut out, trimmed.as_str());
    assert(out@ =~= spec_frame_line(timestamp@, iface@, id, data@));
    out
}

/// The receive time of a frame, `(<seconds>.<microseconds>)` with the
/// microseconds zero-padded to six digits.
pub open spec fn spec_timestamp(secs: u64, micros: u32) -> Seq<char> {
    seq!['('] + dec_text(secs as nat) + seq!['.'] + zero_pad(dec_text(micros as nat), 6) + seq![')']
}

/// Renders a receive time as `(1773430351.545039)`.
pub fn format_timestamp(secs: u64, micros: u32) -> (res: String)
    ensures
        res@ == spec_timestamp(secs, micros),
{
    let mut out = String::new();
    out.push('(');
    push_dec(&mut out, secs);
    out.push('.');
    push_dec_padded(&mut out, micros as u64, 6);
    out.push(')');
    assert(out@ =~= spec_timestamp(secs, micros));
    out
}

} // verus!
