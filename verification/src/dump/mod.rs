//! Dump filters: the `id[:mask]` list that selects which CAN frames a dump
//! shows, in the candump notation.
use vstd::prelude::*;

use crate::colors::{bold, cyan, fg, label_line, labelled, styled, yellow};
use crate::text::{
    chars_of, find_char, find_char_index, has_prefix, hex_text, is_upper_hex_digit, is_white_space,
    lemma_find_char, lemma_hex_text_round_trip, lemma_split_on_append, lemma_trim_unchanged,
    lines_of, parse_unsigned, parse_unsigned_chars, push_hex, push_str, sort_texts, split_chars,
    split_on, split_words, starts_with_chars, string_of, sub_chars, text_lines, text_order, trim,
    trim_chars, views_of, words,
};

pub mod format;

verus! {

/// The largest 29-bit (extended) CAN identifier.
pub const MAX_EXTENDED_ID: u32 = 0x1FFF_FFFF;

/// The largest 11-bit (standard) CAN identifier.
pub const MAX_STANDARD_ID: u32 = 0x7FF;

/// One acceptance filter: a frame passes when its identifier matches `id`
/// on the bits set in `mask`.
#[derive(Debug, Clone, Copy, PartialEq, Eq, Structural)]
pub struct DumpFilter {
    pub id: u32,
    pub mask: u32,
}

/// The two numbers of a filter, for error messages.
#[derive(Debug, Clone, Copy, PartialEq, Eq, Structural)]
pub enum FilterField {
    CanId,
    FilterMask,
}

/// Why a filter list was refused.
#[derive(Debug, Clone, Copy, PartialEq, Eq, Structural)]
pub enum FilterError {
    /// The whole list was blank.
    NoFilters,
    /// One comma-separated entry was blank.
    EmptyFilter,
    /// A number was blank after its optional `0x` prefix.
    EmptyValue(FilterField),
    /// A number was not hexadecimal, or did not fit in 32 bits.
    NotHexadecimal(FilterField),
    /// The identifier is above 0x1FFFFFFF.
    IdOutOfRange,
    /// The mask is above 0x1FFFFFFF.
    MaskOutOfRange,
}

impl FilterField {
    pub fn label(&self) -> (res: &'static str)
        ensures
            *self == FilterField::CanId ==> res@ == "CAN ID"@,
            *self == FilterField::FilterMask ==> res@ == "filter mask"@,
    {
        match self {
            FilterField::CanId => "CAN ID",
            FilterField::FilterMask => "filter mask",
        }
    }
}

impl FilterError {
    /// The message shown for this error.
    pub fn message(&self) -> (res: String)
        ensures
            *self == FilterError::NoFilters ==> res@ == "at least one CAN ID filter is required"@,
            *self == FilterError::EmptyFilter ==> res@ == "empty CAN ID filter"@,
            *self == FilterError::EmptyValue(FilterField::CanId) ==> res@ == "CAN ID cannot be empty"@,
            *self == FilterError::EmptyValue(FilterField::FilterMask) ==> res@
                == "filter mask cannot be empty"@,
            *self == FilterError::NotHexadecimal(FilterField::CanId) ==> res@
                == "CAN ID must be valid hexadecimal"@,
            *self == FilterError::NotHexadecimal(FilterField::FilterMask) ==> res@
                == "filter mask must be valid hexadecimal"@,
            *self == FilterError::IdOutOfRange ==> res@ == "CAN ID must be <= 0x1FFFFFFF"@,
            *self == FilterError::MaskOutOfRange ==> res@ == "filter mask must be <= 0x1FFFFFFF"@,
    {
        match self {
            FilterError::NoFilters => String::from_str("at least one CAN ID filter is required"),
            FilterError::EmptyFilter => String::from_str("empty CAN ID filter"),
            FilterError::EmptyValue(FilterField::CanId) => String::from_str("CAN ID cannot be empty"),
            FilterError::EmptyValue(FilterField::FilterMask) => String::from_str(
                "filter mask cannot be empty",
            ),
            FilterError::NotHexadecimal(FilterField::CanId) => String::from_str(
                "CAN ID must be valid hexadecimal",
            ),
            FilterError::NotHexadecimal(FilterField::FilterMask) => String::from_str(
                "filter mask must be valid hexadecimal",
            ),
            FilterError::IdOutOfRange => String::from_str("CAN ID must be <= 0x1FFFFFFF"),
            FilterError::MaskOutOfRange => String::from_str("filter mask must be <= 0x1FFFFFFF"),
        }
    }
}

// ---------------------------------------------------------------------------
// The meaning of a filter list
// ---------------------------------------------------------------------------

/// `s` without one leading `0x` or `0X`.
pub open spec fn strip_hex_prefix(s: Seq<char>) -> Seq<char> {
    if s.len() >= 2 && s[0] == '0' && (s[1] == 'x' || s[1] == 'X') {
        s.skip(2)
    } else {
        s
    }
}

/// A hexadecimal number with an optional `0x`/`0X` prefix, surrounding
/// whitespace allowed.
pub open spec fn spec_hex_u32(s: Seq<char>, field: FilterField) -> Result<u32, FilterError> {
    let h = strip_hex_prefix(trim(s));
    if h.len() == 0 {
        Err(FilterError::EmptyValue(field))
    } else {
        match parse_unsigned(h, 16, 0xFFFF_FFFF) {
            Some(v) => Ok(v as u32),
            None => Err(FilterError::NotHexadecimal(field)),
        }
    }
}

/// The mask that a bare identifier gets: all 11 bits for a standard
/// identifier, all 29 bits for an extended one.
pub open spec fn default_mask(id: u32) -> u32 {
    if id <= MAX_STANDARD_ID {
        MAX_STANDARD_ID
    } else {
        MAX_EXTENDED_ID
    }
}

/// The identifier and mask written in one entry, before range checks.
pub open spec fn spec_filter_numbers(t: Seq<char>) -> Result<(u32, u32), FilterError> {
    match find_char(t, ':') {
        Some(k) => match spec_hex_u32(t.take(k), FilterField::CanId) {
            Err(e) => Err(e),
            Ok(id) => match spec_hex_u32(t.skip(k + 1), FilterField::FilterMask) {
                Err(e) => Err(e),
                Ok(mask) => Ok((id, mask)),
            },
        },
        None => match spec_hex_u32(t, FilterField::CanId) {
            Err(e) => Err(e),
            Ok(id) => Ok((id, default_mask(id))),
        },
    }
}

/// One entry: `id` or `id:mask`.
pub open spec fn spec_dump_filter(s: Seq<char>) -> Result<DumpFilter, FilterError> {
    let t = trim(s);
    if t.len() == 0 {
        Err(FilterError::EmptyFilter)
    } else {
        match spec_filter_numbers(t) {
            Err(e) => Err(e),
            Ok((id, mask)) => if id > MAX_EXTENDED_ID {
                Err(FilterError::IdOutOfRange)
            } else if mask > MAX_EXTENDED_ID {
                Err(FilterError::MaskOutOfRange)
            } else {
                Ok(DumpFilter { id, mask })
            },
        }
    }
}

/// Each entry in turn; the first refused entry decides the error.
pub open spec fn spec_filter_entries(pieces: Seq<Seq<char>>) -> Result<Seq<DumpFilter>, FilterError>
    decreases pieces.len(),
{
    if pieces.len() == 0 {
        Ok(Seq::empty())
    } else {
        match spec_filter_entries(pieces.drop_last()) {
            Err(e) => Err(e),
            Ok(fs) => match spec_dump_filter(pieces.last()) {
                Err(e) => Err(e),
                Ok(f) => Ok(fs.push(f)),
            },
        }
    }
}

/// A comma-separated list of entries; a blank list is refused.
pub open spec fn spec_dump_filters(s: Seq<char>) -> Result<Seq<DumpFilter>, FilterError> {
    let t = trim(s);
    if t.len() == 0 {
        Err(FilterError::NoFilters)
    } else {
        spec_filter_entries(split_on(t, ','))
    }
}

/// `0x<id>:0x<mask>`, upper-case hexadecimal without padding.
pub open spec fn spec_candump(f: DumpFilter) -> Seq<char> {
    seq!['0', 'x'] + hex_text(f.id as nat, 0) + seq![':', '0', 'x'] + hex_text(f.mask as nat, 0)
}

/// The filters' candump entries, each preceded by a comma.
pub open spec fn spec_candump_list(fs: Seq<DumpFilter>) -> Seq<char>
    decreases fs.len(),
{
    if fs.len() == 0 {
        Seq::empty()
    } else {
        spec_candump_list(fs.drop_last()) + seq![','] + spec_candump(fs.last())
    }
}

/// The interface name followed by the filters' candump entries.
pub open spec fn spec_dump_target(iface: Seq<char>, fs: Seq<DumpFilter>) -> Seq<char> {
    iface + spec_candump_list(fs)
}

// ---------------------------------------------------------------------------
// Executable parsing and rendering
// ---------------------------------------------------------------------------

impl DumpFilter {
    /// This filter in candump notation, `0x123:0x7FF`.
    pub fn format_candump(&self) -> (res: String)
        ensures
            res@ == spec_candump(*self),
    {
        let mut out = String::new();
        out.push('0');
        out.push('x');
        push_hex(&mut out, self.id as u64, 0);
        out.push(':');
        out.push('0');
        out.push('x');
        push_hex(&mut out, self.mask as u64, 0);
        assert(out@ =~= spec_candump(*self));
        out
    }
}

fn strip_hex_prefix_chars(v: &Vec<char>) -> (res: Vec<char>)
    ensures
        res@ == strip_hex_prefix(v@),
{
    if v.len() >= 2 && v[0] == '0' && (v[1] == 'x' || v[1] == 'X') {
        let r = sub_chars(v, 2, v.len());
        assert(r@ =~= v@.skip(2));
        r
    } else {
        sub_chars(v, 0, v.len())
    }
}

fn hex_u32_from_chars(v: &Vec<char>, field: FilterField) -> (res: Result<u32, FilterError>)
    ensures
        res == spec_hex_u32(v@, field),
{
    let t = trim_chars(v);
    let h = strip_hex_prefix_chars(&t);
    if h.len() == 0 {
        return Err(FilterError::EmptyValue(field));
    }
    match parse_unsigned_chars(&h, 16, 0xFFFF_FFFF) {
        Some(n) => Ok(n as u32),
        None => Err(FilterError::NotHexadecimal(field)),
    }
}

/// Parses a hexadecimal number with an optional `0x`/`0X` prefix.
pub fn parse_hex_u32(input: &str, field: FilterField) -> (res: Result<u32, FilterError>)
    ensures
        res == spec_hex_u32(input@, field),
{
    let v = chars_of(input);
    hex_u32_from_chars(&v, field)
}

/// Refuses identifiers above 0x1FFFFFFF.
pub fn validate_can_id(id: u32) -> (res: Result<(), FilterError>)
    ensures
        res is Ok <==> id <= MAX_EXTENDED_ID,
        res is Err ==> res == Err::<(), FilterError>(FilterError::IdOutOfRange),
{
    if id > MAX_EXTENDED_ID {
        return Err(FilterError::IdOutOfRange);
    }
    Ok(())
}

/// Refuses masks above 0x1FFFFFFF.
pub fn validate_can_mask(mask: u32) -> (res: Result<(), FilterError>)
    ensures
        res is Ok <==> mask <= MAX_EXTENDED_ID,
        res is Err ==> res == Err::<(), FilterError>(FilterError::MaskOutOfRange),
{
    if mask > MAX_EXTENDED_ID {
        return Err(FilterError::MaskOutOfRange);
    }
    Ok(())
}

fn dump_filter_from_chars(v: &Vec<char>) -> (res: Result<DumpFilter, FilterError>)
    ensures
        res == spec_dump_filter(v@),
{
    let t = trim_chars(v);
    if t.len() == 0 {
        return Err(FilterError::EmptyFilter);
    }
    let numbers: Result<(u32, u32), FilterError> = match find_char_index(&t, ':') {
        Some(k) => {
            let id_part = sub_chars(&t, 0, k);
            let mask_part = sub_chars(&t, k + 1, t.len());
            assert(id_part@ =~= t@.take(k as int));
            assert(mask_part@ =~= t@.skip(k + 1));
            match hex_u32_from_chars(&id_part, FilterField::CanId) {
                Err(e) => Err(e),
                Ok(id) => match hex_u32_from_chars(&mask_part, FilterField::FilterMask) {
                    Err(e) => Err(e),
                    Ok(mask) => Ok((id, mask)),
                },
            }
        },
        None => match hex_u32_from_chars(&t, FilterField::CanId) {
            Err(e) => Err(e),
            Ok(id) => {
                let mask = if id <= MAX_STANDARD_ID {
                    MAX_STANDARD_ID
                } else {
                    MAX_EXTENDED_ID
                };
                Ok((id, mask))
            },
        },
    };
    assert(numbers == spec_filter_numbers(t@));
    match numbers {
        Err(e) => Err(e),
        Ok((id, mask)) => {
            match validate_can_id(id) {
                Err(e) => {
                    return Err(e);
                },
                Ok(()) => {},
            }
            match validate_can_mask(mask) {
                Err(e) => {
                    return Err(e);
                },
                Ok(()) => {},
            }
            Ok(DumpFilter { id, mask })
        },
    }
}

/// Parses one entry, `id` or `id:mask`; a bare identifier gets the mask of
/// its width (0x7FF up to 0x7FF, 0x1FFFFFFF above).
pub fn parse_dump_filter(input: &str) -> (res: Result<DumpFilter, FilterError>)
    ensures
        res == spec_dump_filter(input@),
{
    let v = chars_of(input);
    dump_filter_from_chars(&v)
}

/// Parses a comma-separated filter list such as `123,456` or
/// `0x123:0x7FF,0x456:0x7FF`.
pub fn parse_dump_filters(input: &str) -> (res: Result<Vec<DumpFilter>, FilterError>)
    ensures
        res is Ok <==> spec_dump_filters(input@) is Ok,
        res matches Ok(fs) ==> spec_dump_filters(input@) == Ok::<Seq<DumpFilter>, FilterError>(
            fs@,
        ),
        res matches Err(e) ==> spec_dump_filters(input@) == Err::<Seq<DumpFilter>, FilterError>(e),
{
    let v = chars_of(input);
    let t = trim_chars(&v);
    if t.len() == 0 {
        return Err(FilterError::NoFilters);
    }
    let pieces = split_chars(&t, ',');
    let ghost ps = split_on(t@, ',');
    let mut out: Vec<DumpFilter> = Vec::new();
    let mut i: usize = 0;
    while i < pieces.len()
        invariant
            i <= pieces.len() == ps.len(),
            forall|j: int| 0 <= j < pieces@.len() ==> #[trigger] pieces@[j]@ == ps[j],
            spec_filter_entries(ps.take(i as int)) == Ok::<Seq<DumpFilter>, FilterError>(out@),
            spec_dump_filters(input@) == spec_filter_entries(ps),
        decreases pieces.len() - i,
    {
        proof {
            assert(ps.take(i + 1).drop_last() =~= ps.take(i as int));
            assert(ps.take(i + 1).last() == ps[i as int]);
        }
        match dump_filter_from_chars(&pieces[i]) {
            Err(e) => {
                proof {
                    lemma_entries_error_extends(ps, i + 1, e);
                }
                return Err(e);
            },
            Ok(f) => {
                out.push(f);
            },
        }
        i = i + 1;
    }
    assert(ps.take(pieces.len() as int) =~= ps);
    Ok(out)
}

proof fn lemma_entries_error_extends(ps: Seq<Seq<char>>, k: int, e: FilterError)
    requires
        0 <= k <= ps.len(),
        spec_filter_entries(ps.take(k)) == Err::<Seq<DumpFilter>, FilterError>(e),
    ensures
        spec_filter_entries(ps) == Err::<Seq<DumpFilter>, FilterError>(e),
    decreases ps.len() - k,
{
    if k < ps.len() {
        assert(ps.take(k + 1).drop_last() =~= ps.take(k));
        lemma_entries_error_extends(ps, k + 1, e);
    } else {
        assert(ps.take(k) =~= ps);
    }
}

/// The dump target in candump notation: the interface alone, or the
/// interface followed by `,0x<id>:0x<mask>` for each filter.
pub fn format_dump_target(iface: &str, filters: &Vec<DumpFilter>) -> (res: String)
    ensures
        res@ == spec_dump_target(iface@, filters@),
{
    let mut out = String::from_str(iface);
    let mut i: usize = 0;
    while i < filters.len()
        invariant
            i <= filters.len(),
            out@ == iface@ + spec_candump_list(filters@.take(i as int)),
        decreases filters.len() - i,
    {
        proof {
            assert(filters@.take(i + 1).drop_last() =~= filters@.take(i as int));
        }
        out.push(',');
        let entry = filters[i].format_candump();
        push_str(&mut out, entry.as_str());
        i = i + 1;
        assert(out@ =~= iface@ + spec_candump_list(filters@.take(i as int)));
    }
    assert(filters@.take(filters.len() as int) =~= filters@);
    out
}

// ---------------------------------------------------------------------------
// Reading back what is written
// ---------------------------------------------------------------------------

/// `0x` and the upper-case hexadecimal digits of `n`.
spec fn prefixed_hex(n: u32) -> Seq<char> {
    seq!['0', 'x'] + hex_text(n as nat, 0)
}

proof fn lemma_prefixed_hex(n: u32, field: FilterField)
    ensures
        spec_hex_u32(prefixed_hex(n), field) == Ok::<u32, FilterError>(n),
        forall|i: int|
            0 <= i < prefixed_hex(n).len() ==> #[trigger] prefixed_hex(n)[i] != ','
                && prefixed_hex(n)[i] != ':',
{
    let h = hex_text(n as nat, 0);
    lemma_hex_text_round_trip(n as nat, 0, 0xFFFF_FFFF);
    let s = prefixed_hex(n);
    assert(s.last() == h.last());
    lemma_trim_unchanged(s);
    assert(s.skip(2) =~= h);
    assert forall|i: int| 0 <= i < s.len() implies #[trigger] s[i] != ',' && s[i] != ':' by {
        if i >= 2 {
            assert(s[i] == h[i - 2]);
        }
    }
}

/// Every character of a filter's candump entry, which has no comma.
proof fn lemma_candump_shape(f: DumpFilter)
    ensures
        spec_candump(f).len() > 0,
        spec_candump(f)[0] == '0',
        is_upper_hex_digit(spec_candump(f).last()),
        forall|i: int| 0 <= i < spec_candump(f).len() ==> #[trigger] spec_candump(f)[i] != ',',
{
    let a = prefixed_hex(f.id);
    let b = prefixed_hex(f.mask);
    lemma_prefixed_hex(f.id, FilterField::CanId);
    lemma_prefixed_hex(f.mask, FilterField::FilterMask);
    lemma_hex_text_round_trip(f.mask as nat, 0, 0xFFFF_FFFF);
    let s = spec_candump(f);
    assert(s =~= a + seq![':'] + b);
    assert(s.last() == hex_text(f.mask as nat, 0).last());
    assert forall|i: int| 0 <= i < s.len() implies #[trigger] s[i] != ',' by {
        if i < a.len() {
            assert(s[i] == a[i]);
        } else if i > a.len() {
            assert(s[i] == b[i - a.len() - 1]);
        }
    }
}

/// A filter written in candump notation (`0x<id>:0x<mask>`) reads back as
/// the same filter when its identifier and mask are in range, and is
/// refused for the first of them that is not.
pub proof fn law_candump_round_trip(f: DumpFilter)
    ensures
        spec_dump_filter(spec_candump(f)) == if f.id > MAX_EXTENDED_ID {
            Err::<DumpFilter, FilterError>(FilterError::IdOutOfRange)
        } else if f.mask > MAX_EXTENDED_ID {
            Err::<DumpFilter, FilterError>(FilterError::MaskOutOfRange)
        } else {
            Ok::<DumpFilter, FilterError>(f)
        },
{
    let a = prefixed_hex(f.id);
    let b = prefixed_hex(f.mask);
    lemma_prefixed_hex(f.id, FilterField::CanId);
    lemma_prefixed_hex(f.mask, FilterField::FilterMask);
    lemma_candump_shape(f);
    let s = spec_candump(f);
    assert(s =~= a + seq![':'] + b);
    lemma_hex_text_round_trip(f.mask as nat, 0, 0xFFFF_FFFF);
    assert(!is_white_space(s.last()));
    lemma_trim_unchanged(s);
    assert forall|i: int| 0 <= i < a.len() implies #[trigger] s[i] != ':' by {
        assert(s[i] == a[i]);
    }
    assert(s[a.len() as int] == ':');
    lemma_find_char(s, ':', a.len() as int);
    assert(s.take(a.len() as int) =~= a);
    assert(s.skip(a.len() as int + 1) =~= b);
}

/// The candump entries of `fs`, joined by commas.
pub open spec fn candump_entries(fs: Seq<DumpFilter>) -> Seq<char> {
    spec_candump_list(fs).drop_first()
}

proof fn lemma_candump_entries_split(fs: Seq<DumpFilter>)
    requires
        fs.len() > 0,
    ensures
        split_on(candump_entries(fs), ',') == fs.map_values(|f: DumpFilter| spec_candump(f)),
        candump_entries(fs)[0] == '0',
        is_upper_hex_digit(candump_entries(fs).last()),
        spec_candump_list(fs).len() > 0,
        spec_candump_list(fs)[0] == ',',
    decreases fs.len(),
{
    let last = fs.last();
    lemma_candump_shape(last);
    let c = spec_candump(last);
    if fs.len() == 1 {
        assert(fs.drop_last() =~= Seq::<DumpFilter>::empty());
        assert(spec_candump_list(fs.drop_last()) =~= Seq::<char>::empty());
        assert(spec_candump_list(fs) == spec_candump_list(fs.drop_last()) + seq![','] + c);
        assert(spec_candump_list(fs) =~= seq![','] + c);
        assert(candump_entries(fs) =~= c);
        lemma_split_on_append(Seq::empty(), c, ',');
        assert(fs.map_values(|f: DumpFilter| spec_candump(f)) =~= seq![c]);
    } else {
        let init = fs.drop_last();
        lemma_candump_entries_split(init);
        let x = candump_entries(init);
        assert(spec_candump_list(init).len() > 0);
        assert(candump_entries(fs) =~= x.push(',') + c);
        lemma_split_on_append(x, c, ',');
        assert(fs.map_values(|f: DumpFilter| spec_candump(f)) =~= init.map_values(
            |f: DumpFilter| spec_candump(f),
        ).push(c));
        assert(candump_entries(fs)[0] == x[0]);
        assert(spec_candump_list(fs)[0] == spec_candump_list(init)[0]);
        assert(candump_entries(fs).last() == c.last());
    }
}

proof fn lemma_entries_read_back(fs: Seq<DumpFilter>)
    requires
        forall|i: int|
            0 <= i < fs.len() ==> #[trigger] fs[i].id <= MAX_EXTENDED_ID && fs[i].mask
                <= MAX_EXTENDED_ID,
    ensures
        spec_filter_entries(fs.map_values(|f: DumpFilter| spec_candump(f))) == Ok::<
            Seq<DumpFilter>,
            FilterError,
        >(fs),
    decreases fs.len(),
{
    let ps = fs.map_values(|f: DumpFilter| spec_candump(f));
    if fs.len() > 0 {
        let init = fs.drop_last();
        assert forall|i: int| 0 <= i < init.len() implies #[trigger] init[i].id <= MAX_EXTENDED_ID
            && init[i].mask <= MAX_EXTENDED_ID by {
            assert(init[i] == fs[i]);
        }
        lemma_entries_read_back(init);
        assert(ps.drop_last() =~= init.map_values(|f: DumpFilter| spec_candump(f)));
        assert(fs.last() == fs[fs.len() - 1]);
        law_candump_round_trip(fs.last());
        assert(init.push(fs.last()) =~= fs);
    } else {
        assert(fs =~= Seq::<DumpFilter>::empty());
    }
}

/// A non-empty list of filters whose identifiers and masks are in range,
/// written as the dump target lists them after the interface and a comma
/// (`0x<id>:0x<mask>,...`), reads back as the same list.
pub proof fn law_candump_list_round_trip(iface: Seq<char>, fs: Seq<DumpFilter>)
    requires
        fs.len() > 0,
        forall|i: int|
            0 <= i < fs.len() ==> #[trigger] fs[i].id <= MAX_EXTENDED_ID && fs[i].mask
                <= MAX_EXTENDED_ID,
    ensures
        spec_dump_filters(candump_entries(fs)) == Ok::<Seq<DumpFilter>, FilterError>(fs),
        spec_dump_target(iface, fs) == iface + seq![','] + candump_entries(fs),
{
    lemma_candump_entries_split(fs);
    let t = candump_entries(fs);
    lemma_trim_unchanged(t);
    lemma_entries_read_back(fs);
    assert(spec_dump_target(iface, fs) =~= iface + seq![','] + t);
}

// ---------------------------------------------------------------------------
// Interfaces in a link listing
// ---------------------------------------------------------------------------

/// The first whitespace-separated word of a line, or nothing.
pub open spec fn first_word(line: Seq<char>) -> Seq<char> {
    if words(line).len() > 0 {
        words(line)[0]
    } else {
        Seq::empty()
    }
}

/// A name of a CAN interface: `can…`, `slcan…` or `vcan…`.
pub open spec fn is_can_name(name: Seq<char>) -> bool {
    has_prefix(name, "can"@) || has_prefix(name, "slcan"@) || has_prefix(name, "vcan"@)
}

/// The CAN interface names of a link listing (the output of
/// `ip -brief link`), in listing order: the first word of each line, where
/// it names a CAN interface.
pub open spec fn listed_can_names(listing: Seq<char>) -> Seq<Seq<char>> {
    text_lines(listing).map_values(|l: Seq<char>| first_word(l)).filter(
        |n: Seq<char>| is_can_name(n),
    )
}

/// The CAN interfaces of a link listing, sorted.
pub fn can_interfaces_in(listing: &str) -> (res: Vec<String>)
    ensures
        views_of(res@) == listed_can_names(listing@).sort_by(text_order()),
{
    let v = chars_of(listing);
    let ls = lines_of(&v);
    let ghost firsts = text_lines(v@).map_values(|l: Seq<char>| first_word(l));
    let ghost pred = |n: Seq<char>| is_can_name(n);
    let mut names: Vec<String> = Vec::new();
    let mut i: usize = 0;
    while i < ls.len()
        invariant
            i <= ls.len(),
            ls@.len() == text_lines(v@).len(),
            forall|j: int| 0 <= j < ls@.len() ==> #[trigger] ls@[j]@ == text_lines(v@)[j],
            firsts == text_lines(v@).map_values(|l: Seq<char>| first_word(l)),
            pred == (|n: Seq<char>| is_can_name(n)),
            views_of(names@) == firsts.take(i as int).filter(pred),
        decreases ls.len() - i,
    {
        let ws = split_words(&ls[i]);
        let first: Vec<char> = if ws.len() > 0 {
            crate::text::sub_chars(&ws[0], 0, ws[0].len())
        } else {
            Vec::new()
        };
        assert(first@ =~= firsts[i as int]);
        let keep = starts_with_chars(&first, "can") || starts_with_chars(&first, "slcan")
            || starts_with_chars(&first, "vcan");
        proof {
            reveal_with_fuel(vstd::seq::Seq::filter, 1);
            assert(firsts.take(i + 1).drop_last() =~= firsts.take(i as int));
            assert(firsts.take(i + 1).last() == firsts[i as int]);
        }
        let ghost before = names@;
        if keep {
            names.push(string_of(&first));
            assert(views_of(names@) =~= views_of(before).push(first@));
        }
        i = i + 1;
    }
    assert(firsts.take(ls.len() as int) =~= firsts);
    sort_texts(names)
}

// ---------------------------------------------------------------------------
// Choosing and announcing a dump
// ---------------------------------------------------------------------------

/// Whether a dump shows every frame or only those that pass filters.
#[derive(Debug, Clone, Copy, PartialEq, Eq, Structural)]
pub enum DumpMode {
    AllFrames,
    FilterById,
}

impl DumpMode {
    /// The text shown for this mode in menus.
    pub fn text(&self) -> (res: &'static str)
        ensures
            *self == DumpMode::AllFrames ==> res@ == "Dump all frames"@,
            *self == DumpMode::FilterById ==> res@ == "Filter by one or more CAN IDs"@,
    {
        match self {
            DumpMode::AllFrames => "Dump all frames",
            DumpMode::FilterById => "Filter by one or more CAN IDs",
        }
    }
}

/// The dump modes in menu order.
pub fn dump_modes() -> (res: Vec<DumpMode>)
    ensures
        res@ == seq![DumpMode::AllFrames, DumpMode::FilterById],
{
    let res = vec![DumpMode::AllFrames, DumpMode::FilterById];
    assert(res@ =~= seq![DumpMode::AllFrames, DumpMode::FilterById]);
    res
}

/// The lines printed before a dump of `iface` starts: the interface, the
/// candump target when there are filters, and how to stop.
pub open spec fn spec_dump_banner(iface: Seq<char>, fs: Seq<DumpFilter>) -> Seq<Seq<char>> {
    let head = seq![labelled("Pretty CAN Dump on"@, styled(seq!['1'], fg(seq!['3', '6'], iface)))];
    let stop = seq![fg(seq!['3', '3'], "Press Ctrl+C to stop."@)];
    if fs.len() == 0 {
        head + stop
    } else {
        head + seq![
            labelled("Applying filters:"@, fg(seq!['3', '6'], spec_dump_target(iface, fs))),
        ] + stop
    }
}

/// The lines printed before a dump of `iface` with `filters` starts.
pub fn dump_banner(iface: &str, filters: &Vec<DumpFilter>) -> (res: Vec<String>)
    ensures
        views_of(res@) == spec_dump_banner(iface@, filters@),
{
    let target = format_dump_target(iface, filters);
    let mut lines: Vec<String> = Vec::new();
    lines.push(label_line("Pretty CAN Dump on", bold(cyan(iface).as_str()).as_str()));
    if filters.len() > 0 {
        lines.push(label_line("Applying filters:", cyan(target.as_str()).as_str()));
    }
    lines.push(yellow("Press Ctrl+C to stop."));
    assert(views_of(lines@) =~= spec_dump_banner(iface@, filters@));
    lines
}

} // verus!
