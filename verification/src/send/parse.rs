//! The frame a user enters: a standard identifier in hexadecimal and up to
//! eight data bytes written as two hexadecimal digits each.
use vstd::prelude::*;

use crate::text::{
    is_upper_hex_digit, is_white_space, lemma_hex_text_round_trip, lemma_trim_unchanged,
    lemma_words_append, utf8_width,
    chars_of, hex_text, parse_unsigned, parse_unsigned_chars, push_hex, split_words, string_of,
    trim, trim_chars, utf8_size, utf8_size_is, words,
};

verus! {

/// A frame to send: an identifier and its payload.
#[derive(Debug, Clone)]
pub struct SendFrame {
    pub id: u32,
    pub data: Vec<u8>,
}

/// Why a typed frame was refused.
#[derive(Debug, Clone, PartialEq, Eq)]
pub enum FrameError {
    /// The identifier was blank.
    EmptyId,
    /// The identifier was not hexadecimal.
    IdNotHexadecimal,
    /// The identifier is above 0x7FF.
    IdOutOfRange,
    /// More than eight data bytes.
    TooManyBytes,
    /// A data byte was not two characters (bytes of UTF-8) long.
    ByteNotTwoDigits,
    /// A data byte of two characters that is not hexadecimal.
    InvalidByte(String),
}

/// `FrameError` with the offending text as characters.
pub enum FrameFault {
    EmptyId,
    IdNotHexadecimal,
    IdOutOfRange,
    TooManyBytes,
    ByteNotTwoDigits,
    InvalidByte(Seq<char>),
}

impl View for FrameError {
    type V = FrameFault;

    open spec fn view(&self) -> FrameFault {
        match self {
            FrameError::EmptyId => FrameFault::EmptyId,
            FrameError::IdNotHexadecimal => FrameFault::IdNotHexadecimal,
            FrameError::IdOutOfRange => FrameFault::IdOutOfRange,
            FrameError::TooManyBytes => FrameFault::TooManyBytes,
            FrameError::ByteNotTwoDigits => FrameFault::ByteNotTwoDigits,
            FrameError::InvalidByte(s) => FrameFault::InvalidByte(s@),
        }
    }
}

impl FrameError {
    /// The message shown for this error.
    pub fn message(&self) -> (res: String)
        ensures
            self@ == FrameFault::EmptyId ==> res@ == "CAN ID cannot be empty"@,
            self@ == FrameFault::IdNotHexadecimal ==> res@ == "CAN ID must be valid hexadecimal"@,
            self@ == FrameFault::IdOutOfRange ==> res@ == "CAN ID must be <= 7FF for standard CAN"@,
            self@ == FrameFault::TooManyBytes ==> res@ == "CAN data may contain at most 8 bytes"@,
            self@ == FrameFault::ByteNotTwoDigits ==> res@
                == "Each byte must be exactly 2 hexadecimal characters"@,
            self@ matches FrameFault::InvalidByte(p) ==> res@ == "Invalid hex byte '"@ + p + "'"@,
    {
        match self {
            FrameError::EmptyId => String::from_str("CAN ID cannot be empty"),
            FrameError::IdNotHexadecimal => String::from_str("CAN ID must be valid hexadecimal"),
            FrameError::IdOutOfRange => String::from_str("CAN ID must be <= 7FF for standard CAN"),
            FrameError::TooManyBytes => String::from_str("CAN data may contain at most 8 bytes"),
            FrameError::ByteNotTwoDigits => String::from_str(
                "Each byte must be exactly 2 hexadecimal characters",
            ),
            FrameError::InvalidByte(p) => {
                let mut out = String::from_str("Invalid hex byte '");
                out.append(p.as_str());
                out.append("'");
                out
            },
        }
    }
}

/// The hexadecimal digits of each byte, two per byte, with `sep` between
/// bytes.
pub open spec fn hex_bytes(data: Seq<u8>, sep: Seq<char>) -> Seq<char>
    decreases data.len(),
{
    if data.len() == 0 {
        Seq::empty()
    } else if data.len() == 1 {
        hex_text(data[0] as nat, 2)
    } else {
        hex_bytes(data.drop_last(), sep) + sep + hex_text(data.last() as nat, 2)
    }
}

/// `123#11223344`: the identifier with at least three digits, `#`, and the
/// bytes without separators.
pub open spec fn spec_compact(id: u32, data: Seq<u8>) -> Seq<char> {
    hex_text(id as nat, 3) + seq!['#'] + hex_bytes(data, Seq::empty())
}

/// `123#11 22 33 44`: as the compact form, with spaces between the bytes.
pub open spec fn spec_spaced(id: u32, data: Seq<u8>) -> Seq<char> {
    hex_text(id as nat, 3) + seq!['#'] + hex_bytes(data, seq![' '])
}

proof fn lemma_hex_bytes_step(data: Seq<u8>, sep: Seq<char>, i: int)
    requires
        0 <= i < data.len(),
    ensures
        hex_bytes(data.take(i + 1), sep) == if i == 0 {
            hex_text(data[0] as nat, 2)
        } else {
            hex_bytes(data.take(i), sep) + sep + hex_text(data[i] as nat, 2)
        },
{
    let t = data.take(i + 1);
    assert(t.drop_last() =~= data.take(i));
    assert(t.last() == data[i]);
    if i == 0 {
        assert(t[0] == data[0]);
    }
}

fn push_hex_bytes(out: &mut String, data: &Vec<u8>, spaced: bool)
    ensures
        final(out)@ == old(out)@ + hex_bytes(
            data@,
            if spaced {
                seq![' ']
            } else {
                Seq::empty()
            },
        ),
{
    let ghost sep: Seq<char> = if spaced {
        seq![' ']
    } else {
        Seq::empty()
    };
    let ghost start = out@;
    let mut i: usize = 0;
    while i < data.len()
        invariant
            i <= data.len(),
            out@ == start + hex_bytes(data@.take(i as int), sep),
            sep == if spaced {
                seq![' ']
            } else {
                Seq::<char>::empty()
            },
        decreases data.len() - i,
    {
        proof {
            lemma_hex_bytes_step(data@, sep, i as int);
        }
        if i > 0 && spaced {
            out.push(' ');
        }
        push_hex(out, data[i] as u64, 2);
        i = i + 1;
        assert(out@ =~= start + hex_bytes(data@.take(i as int), sep));
    }
    assert(data@.take(data.len() as int) =~= data@);
}

impl SendFrame {
    /// The frame as `123#11223344`.
    pub fn format_compact(&self) -> (res: String)
        ensures
            res@ == spec_compact(self.id, self.data@),
    {
        let mut out = String::new();
        push_hex(&mut out, self.id as u64, 3);
        out.push('#');
        push_hex_bytes(&mut out, &self.data, false);
        out
    }

    /// The frame as `123#11 22 33 44` (`123#` without data).
    pub fn format_spaced(&self) -> (res: String)
        ensures
            res@ == spec_spaced(self.id, self.data@),
    {
        let mut out = String::new();
        push_hex(&mut out, self.id as u64, 3);
        out.push('#');
        push_hex_bytes(&mut out, &self.data, true);
        out
    }
}

/// An identifier: hexadecimal without prefix, surrounding whitespace
/// allowed, at most 0x7FF.
pub open spec fn spec_can_id(s: Seq<char>) -> Result<u32, FrameFault> {
    let t = trim(s);
    if t.len() == 0 {
        Err(FrameFault::EmptyId)
    } else {
        match parse_unsigned(t, 16, 0xFFFF_FFFF) {
            None => Err(FrameFault::IdNotHexadecimal),
            Some(v) => if v > 0x7FF {
                Err(FrameFault::IdOutOfRange)
            } else {
                Ok(v as u32)
            },
        }
    }
}

/// Each word in turn as a byte; the first refused word decides the error.
pub open spec fn spec_data_words(ws: Seq<Seq<char>>) -> Result<Seq<u8>, FrameFault>
    decreases ws.len(),
{
    if ws.len() == 0 {
        Ok(Seq::empty())
    } else {
        match spec_data_words(ws.drop_last()) {
            Err(e) => Err(e),
            Ok(bytes) => {
                let w = ws.last();
                if utf8_size(w) != 2 {
                    Err(FrameFault::ByteNotTwoDigits)
                } else {
                    match parse_unsigned(w, 16, 0xFF) {
                        Some(b) => Ok(bytes.push(b as u8)),
                        None => Err(FrameFault::InvalidByte(w)),
                    }
                }
            },
        }
    }
}

/// A payload: blank for none, else at most eight whitespace-separated
/// two-digit hexadecimal bytes.
pub open spec fn spec_can_data(s: Seq<char>) -> Result<Seq<u8>, FrameFault> {
    let t = trim(s);
    if t.len() == 0 {
        Ok(Seq::empty())
    } else if words(t).len() > 8 {
        Err(FrameFault::TooManyBytes)
    } else {
        spec_data_words(words(t))
    }
}

/// Parses a standard CAN identifier typed in hexadecimal, such as `123`.
pub fn parse_can_id(input: &str) -> (res: Result<u32, FrameError>)
    ensures
        match res {
            Ok(id) => spec_can_id(input@) == Ok::<u32, FrameFault>(id),
            Err(e) => spec_can_id(input@) == Err::<u32, FrameFault>(e@),
        },
{
    let v = chars_of(input);
    let t = trim_chars(&v);
    if t.len() == 0 {
        return Err(FrameError::EmptyId);
    }
    match parse_unsigned_chars(&t, 16, 0xFFFF_FFFF) {
        None => Err(FrameError::IdNotHexadecimal),
        Some(n) => {
            if n > 0x7FF {
                Err(FrameError::IdOutOfRange)
            } else {
                Ok(n as u32)
            }
        },
    }
}

proof fn lemma_data_error_extends(ws: Seq<Seq<char>>, k: int, e: FrameFault)
    requires
        0 <= k <= ws.len(),
        spec_data_words(ws.take(k)) == Err::<Seq<u8>, FrameFault>(e),
    ensures
        spec_data_words(ws) == Err::<Seq<u8>, FrameFault>(e),
    decreases ws.len() - k,
{
    if k < ws.len() {
        assert(ws.take(k + 1).drop_last() =~= ws.take(k));
        lemma_data_error_extends(ws, k + 1, e);
    } else {
        assert(ws.take(k) =~= ws);
    }
}

/// Parses payload bytes such as `11 22 33 44`; blank input is an empty
/// payload.
pub fn parse_can_data(input: &str) -> (res: Result<Vec<u8>, FrameError>)
    ensures
        match res {
            Ok(bytes) => spec_can_data(input@) == Ok::<Seq<u8>, FrameFault>(bytes@),
            Err(e) => spec_can_data(input@) == Err::<Seq<u8>, FrameFault>(e@),
        },
{
    let v = chars_of(input);
    let t = trim_chars(&v);
    if t.len() == 0 {
        return Ok(Vec::new());
    }
    let parts = split_words(&t);
    if parts.len() > 8 {
        return Err(FrameError::TooManyBytes);
    }
    let ghost ws = words(t@);
    let mut data: Vec<u8> = Vec::new();
    let mut i: usize = 0;
    while i < parts.len()
        invariant
            i <= parts.len() == ws.len(),
            forall|j: int| 0 <= j < parts@.len() ==> #[trigger] parts@[j]@ == ws[j],
            spec_data_words(ws.take(i as int)) == Ok::<Seq<u8>, FrameFault>(data@),
            spec_can_data(input@) == spec_data_words(ws),
        decreases parts.len() - i,
    {
        proof {
            assert(ws.take(i + 1).drop_last() =~= ws.take(i as int));
            assert(ws.take(i + 1).last() == ws[i as int]);
        }
        let part = &parts[i];
        if !utf8_size_is(part, 2) {
            proof {
                lemma_data_error_extends(ws, i + 1, FrameFault::ByteNotTwoDigits);
            }
            return Err(FrameError::ByteNotTwoDigits);
        }
        match parse_unsigned_chars(part, 16, 0xFF) {
            Some(b) => {
                data.push(b as u8);
            },
            None => {
                let text = string_of(part);
                proof {
                    lemma_data_error_extends(ws, i + 1, FrameFault::InvalidByte(part@));
                }
                return Err(FrameError::InvalidByte(text));
            },
        }
        i = i + 1;
    }
    assert(ws.take(parts.len() as int) =~= ws);
    Ok(data)
}

// ---------------------------------------------------------------------------
// Reading back what is shown
// ---------------------------------------------------------------------------

/// A standard identifier, shown as in a frame (three or more upper-case
/// hexadecimal digits), reads back as the same identifier.
pub proof fn law_can_id_round_trip(id: u32)
    requires
        id <= 0x7FF,
    ensures
        spec_can_id(hex_text(id as nat, 3)) == Ok::<u32, FrameFault>(id),
{
    let h = hex_text(id as nat, 3);
    lemma_hex_text_round_trip(id as nat, 3, 0xFFFF_FFFF);
    assert(is_upper_hex_digit(h[0]) && is_upper_hex_digit(h[h.len() - 1]));
    lemma_trim_unchanged(h);
}

/// The text of each byte: two upper-case hexadecimal digits.
pub open spec fn byte_texts(data: Seq<u8>) -> Seq<Seq<char>> {
    data.map_values(|b: u8| hex_text(b as nat, 2))
}

proof fn lemma_byte_text(b: u8)
    ensures
        hex_text(b as nat, 2).len() == 2,
        forall|i: int|
            0 <= i < hex_text(b as nat, 2).len() ==> !is_white_space(
                #[trigger] hex_text(b as nat, 2)[i],
            ),
        utf8_size(hex_text(b as nat, 2)) == 2,
        parse_unsigned(hex_text(b as nat, 2), 16, 0xFF) == Some(b as nat),
{
    let h = hex_text(b as nat, 2);
    lemma_hex_text_round_trip(b as nat, 2, 0xFF);
    assert forall|i: int| 0 <= i < h.len() implies !is_white_space(#[trigger] h[i]) by {
        assert(is_upper_hex_digit(h[i]));
    }
    assert(is_upper_hex_digit(h[0]) && is_upper_hex_digit(h[1]));
    let e = h.drop_last();
    assert(e.drop_last() =~= Seq::<char>::empty());
    assert(e.last() == h[0]);
    assert(utf8_size(e.drop_last()) == 0);
    assert(utf8_width(e.last()) == 1);
    assert(utf8_width(h.last()) == 1);
    assert(utf8_size(e) == 1);
}

proof fn lemma_spaced_bytes_words(data: Seq<u8>)
    requires
        data.len() >= 1,
    ensures
        words(hex_bytes(data, seq![' '])) == byte_texts(data),
        hex_bytes(data, seq![' ']).len() > 0,
        is_upper_hex_digit(hex_bytes(data, seq![' '])[0]),
        is_upper_hex_digit(hex_bytes(data, seq![' ']).last()),
    decreases data.len(),
{
    let last = data.last();
    let h = hex_text(last as nat, 2);
    lemma_byte_text(last);
    lemma_hex_text_round_trip(last as nat, 2, 0xFF);
    assert(is_upper_hex_digit(h[0]) && is_upper_hex_digit(h[1]));
    if data.len() == 1 {
        lemma_words_append(Seq::empty(), h);
        assert(Seq::<char>::empty() + h =~= h);
        assert(byte_texts(data) =~= seq![h]);
    } else {
        let init = data.drop_last();
        lemma_spaced_bytes_words(init);
        let x = hex_bytes(init, seq![' ']);
        let xs = x.push(' ');
        assert(xs.drop_last() =~= x);
        assert(words(xs) == words(x));
        lemma_words_append(xs, h);
        assert(hex_bytes(data, seq![' ']) =~= xs + h);
        assert(byte_texts(data) =~= byte_texts(init).push(h));
        assert(hex_bytes(data, seq![' '])[0] == x[0]);
        assert(hex_bytes(data, seq![' ']).last() == h[1]);
    }
}

proof fn lemma_byte_texts_read_back(data: Seq<u8>)
    ensures
        spec_data_words(byte_texts(data)) == Ok::<Seq<u8>, FrameFault>(data),
    decreases data.len(),
{
    if data.len() > 0 {
        let init = data.drop_last();
        lemma_byte_texts_read_back(init);
        assert(byte_texts(data).drop_last() =~= byte_texts(init));
        assert(byte_texts(data).last() == hex_text(data.last() as nat, 2));
        lemma_byte_text(data.last());
        assert(init.push(data.last()) =~= data);
    } else {
        assert(data =~= Seq::<u8>::empty());
    }
}

/// A payload of at most eight bytes, shown as in a frame (two digits per
/// byte, spaces between), reads back as the same payload.
pub proof fn law_can_data_round_trip(data: Seq<u8>)
    requires
        data.len() <= 8,
    ensures
        spec_can_data(hex_bytes(data, seq![' '])) == Ok::<Seq<u8>, FrameFault>(data),
{
    if data.len() == 0 {
        assert(hex_bytes(data, seq![' ']) =~= Seq::<char>::empty());
        assert(data =~= Seq::<u8>::empty());
    } else {
        lemma_spaced_bytes_words(data);
        let t = hex_bytes(data, seq![' ']);
        lemma_trim_unchanged(t);
        lemma_byte_texts_read_back(data);
    }
}

/// Whether a character is not a space.
pub open spec fn not_space() -> spec_fn(char) -> bool {
    |c: char| c != ' '
}

/// Whether a character is a space.
pub open spec fn space() -> spec_fn(char) -> bool {
    |c: char| c == ' '
}

proof fn lemma_no_spaces(h: Seq<char>)
    requires
        forall|i: int| 0 <= i < h.len() ==> #[trigger] h[i] != ' ',
    ensures
        h.filter(not_space()) == h,
        h.filter(space()) == Seq::<char>::empty(),
    decreases h.len(),
{
    reveal(Seq::filter);
    if h.len() > 0 {
        let init = h.drop_last();
        assert forall|i: int| 0 <= i < init.len() implies #[trigger] init[i] != ' ' by {
            assert(init[i] == h[i]);
        }
        lemma_no_spaces(init);
        assert(h[h.len() - 1] != ' ');
        assert(init.push(h.last()) =~= h);
    } else {
        assert(h =~= Seq::<char>::empty());
    }
}

proof fn lemma_hex_has_no_spaces(n: nat, width: nat)
    ensures
        hex_text(n, width).filter(not_space()) == hex_text(n, width),
        hex_text(n, width).filter(space()) == Seq::<char>::empty(),
{
    let h = hex_text(n, width);
    lemma_hex_text_round_trip(n, width, 0);
    assert forall|i: int| 0 <= i < h.len() implies #[trigger] h[i] != ' ' by {
        assert(is_upper_hex_digit(h[i]));
    }
    lemma_no_spaces(h);
}

proof fn lemma_single_space()
    ensures
        seq![' '].filter(not_space()) == Seq::<char>::empty(),
        seq![' '].filter(space()) == seq![' '],
{
    reveal(Seq::filter);
    let s = seq![' '];
    assert(s.drop_last() =~= Seq::<char>::empty());
    assert(s.drop_last().filter(not_space()) == Seq::<char>::empty());
    assert(s.drop_last().filter(space()) == Seq::<char>::empty());
    assert(Seq::<char>::empty().push(' ') =~= s);
}

proof fn lemma_spaced_bytes_filter(data: Seq<u8>)
    ensures
        hex_bytes(data, seq![' ']).filter(not_space()) == hex_bytes(data, Seq::empty()),
        hex_bytes(data, seq![' ']).filter(space()).len() == if data.len() == 0 {
            0
        } else {
            data.len() - 1
        },
    decreases data.len(),
{
    if data.len() == 1 {
        lemma_hex_has_no_spaces(data[0] as nat, 2);
    } else if data.len() > 1 {
        let init = data.drop_last();
        let h = hex_text(data.last() as nat, 2);
        let x = hex_bytes(init, seq![' ']);
        let c = hex_bytes(init, Seq::empty());
        lemma_spaced_bytes_filter(init);
        lemma_hex_has_no_spaces(data.last() as nat, 2);
        lemma_single_space();
        assert(hex_bytes(data, seq![' ']) == x + seq![' '] + h);
        assert(hex_bytes(data, Seq::empty()) == c + Seq::<char>::empty() + h);
        Seq::filter_distributes_over_add(x + seq![' '], h, not_space());
        Seq::filter_distributes_over_add(x, seq![' '], not_space());
        Seq::filter_distributes_over_add(x + seq![' '], h, space());
        Seq::filter_distributes_over_add(x, seq![' '], space());
        assert((x + seq![' '] + h).filter(not_space()) =~= c + Seq::<char>::empty() + h);
        assert((x + seq![' '] + h).filter(space()) =~= x.filter(space()) + seq![' ']
            + Seq::<char>::empty());
    } else {
        reveal(Seq::filter);
        assert(hex_bytes(data, seq![' ']) == Seq::<char>::empty());
        assert(Seq::<char>::empty().filter(not_space()) == Seq::<char>::empty());
        assert(Seq::<char>::empty().filter(space()) == Seq::<char>::empty());
    }
}

/// The spaced text of a frame is its compact text with spaces put in, one
/// between each two bytes and nowhere else.
pub proof fn law_spaced_is_compact_with_spaces(id: u32, data: Seq<u8>)
    ensures
        spec_spaced(id, data).filter(not_space()) == spec_compact(id, data),
        spec_spaced(id, data).filter(space()).len() == if data.len() == 0 {
            0
        } else {
            data.len() - 1
        },
{
    let id_text = hex_text(id as nat, 3);
    let hash = seq!['#'];
    let bytes = hex_bytes(data, seq![' ']);
    lemma_hex_has_no_spaces(id as nat, 3);
    lemma_spaced_bytes_filter(data);
    lemma_no_spaces(hash);
    Seq::filter_distributes_over_add(id_text, hash, not_space());
    Seq::filter_distributes_over_add(id_text, hash, space());
    Seq::filter_distributes_over_add(id_text + hash, bytes, not_space());
    Seq::filter_distributes_over_add(id_text + hash, bytes, space());
    assert((id_text + hash + bytes).filter(space()) =~= bytes.filter(space()));
}

} // verus!
