//! How a frame is sent, the timing the user types, and the summary shown
//! before sending.
use vstd::prelude::*;

use crate::colors::{bold, cyan, dimmed, fg, green, label_line, labelled, styled, yellow};
use crate::send::parse::{spec_spaced, SendFrame};
use crate::text::{
    chars_of, dec_text, parse_unsigned, parse_unsigned_chars, push_dec, trim, trim_chars, views_of,
};

verus! {

/// How a frame is sent.
#[derive(Debug, Clone, Copy, PartialEq, Eq, Structural)]
pub enum SendMode {
    Once,
    ManualRepeat,
    CyclicInterval,
    CyclicFrequency,
}

impl SendMode {
    /// The text shown for this mode in menus.
    pub fn text(&self) -> (res: &'static str)
        ensures
            *self == SendMode::Once ==> res@ == "Send once then exit"@,
            *self == SendMode::ManualRepeat ==> res@ == "Send once each time manually"@,
            *self == SendMode::CyclicInterval ==> res@ == "Send cyclically with interval"@,
            *self == SendMode::CyclicFrequency ==> res@ == "Send cyclically with frequency"@,
    {
        match self {
            SendMode::Once => "Send once then exit",
            SendMode::ManualRepeat => "Send once each time manually",
            SendMode::CyclicInterval => "Send cyclically with interval",
            SendMode::CyclicFrequency => "Send cyclically with frequency",
        }
    }
}

/// The modes in menu order.
pub fn send_modes() -> (res: Vec<SendMode>)
    ensures
        res@ == seq![
            SendMode::Once,
            SendMode::ManualRepeat,
            SendMode::CyclicInterval,
            SendMode::CyclicFrequency,
        ],
{
    let res = vec![
        SendMode::Once,
        SendMode::ManualRepeat,
        SendMode::CyclicInterval,
        SendMode::CyclicFrequency,
    ];
    assert(res@ =~= seq![
        SendMode::Once,
        SendMode::ManualRepeat,
        SendMode::CyclicInterval,
        SendMode::CyclicFrequency,
    ]);
    res
}

/// A number the user typed that is not a non-negative integer.
#[derive(Debug, Clone, Copy, PartialEq, Eq, Structural)]
pub enum TimingError {
    Interval,
    Frequency,
}

impl TimingError {
    pub fn message(&self) -> (res: &'static str)
        ensures
            *self == TimingError::Interval ==> res@ == "interval must be a valid positive integer"@,
            *self == TimingError::Frequency ==> res@ == "frequency must be a valid positive integer"@,
    {
        match self {
            TimingError::Interval => "interval must be a valid positive integer",
            TimingError::Frequency => "frequency must be a valid positive integer",
        }
    }
}

/// A decimal `u64`, surrounding whitespace allowed.
pub open spec fn spec_decimal(s: Seq<char>) -> Option<nat> {
    parse_unsigned(trim(s), 10, 0xFFFF_FFFF_FFFF_FFFF)
}

fn decimal(input: &str) -> (res: Option<u64>)
    ensures
        match res {
            Some(n) => spec_decimal(input@) == Some(n as nat),
            None => spec_decimal(input@) is None,
        },
{
    let t = trim_chars(&chars_of(input));
    parse_unsigned_chars(&t, 10, 0xFFFF_FFFF_FFFF_FFFF)
}

/// The interval between cyclic sends, in milliseconds.
pub fn parse_interval_millis(input: &str) -> (res: Result<u64, TimingError>)
    ensures
        match res {
            Ok(n) => spec_decimal(input@) == Some(n as nat),
            Err(e) => spec_decimal(input@) is None && e == TimingError::Interval,
        },
{
    match decimal(input) {
        Some(n) => Ok(n),
        None => Err(TimingError::Interval),
    }
}

/// The frequency of cyclic sends, in hertz.
pub fn parse_frequency_hz(input: &str) -> (res: Result<u64, TimingError>)
    ensures
        match res {
            Ok(n) => spec_decimal(input@) == Some(n as nat),
            Err(e) => spec_decimal(input@) is None && e == TimingError::Frequency,
        },
{
    match decimal(input) {
        Some(n) => Ok(n),
        None => Err(TimingError::Frequency),
    }
}

/// The interval of a frequency, in whole milliseconds.
pub fn interval_for_frequency(hz: u64) -> (res: u64)
    requires
        hz > 0,
    ensures
        res == 1000u64 / hz,
{
    1000 / hz
}

/// The frequency shown for an interval, in whole hertz.
pub fn frequency_of_interval(millis: u64) -> (res: u64)
    requires
        millis > 0,
    ensures
        res == 1000u64 / millis,
{
    1000 / millis
}

/// The rule above and below the summary.
pub open spec fn rule_text() -> Seq<char> {
    "══════════════════════════════════════"@
}

/// The summary shown before sending: the interface and the frame between
/// two rules, with blank lines around.
pub open spec fn spec_send_banner(iface: Seq<char>, frame: Seq<char>) -> Seq<Seq<char>> {
    seq![
        Seq::empty(),
        styled(seq!['2'], rule_text()),
        labelled("Sending on"@, styled(seq!['1'], fg(seq!['3', '6'], iface))),
        labelled("Frame:"@, fg(seq!['3', '2'], frame)),
        styled(seq!['2'], rule_text()),
        Seq::empty(),
    ]
}

/// The summary shown before sending `frame` on `iface`.
pub fn send_banner(iface: &str, frame: &SendFrame) -> (res: Vec<String>)
    ensures
        views_of(res@) == spec_send_banner(iface@, spec_spaced(frame.id, frame.data@)),
{
    let spaced = frame.format_spaced();
    let mut lines: Vec<String> = Vec::new();
    lines.push(String::new());
    lines.push(dimmed("══════════════════════════════════════"));
    lines.push(label_line("Sending on", bold(cyan(iface).as_str()).as_str()));
    lines.push(label_line("Frame:", green(spaced.as_str()).as_str()));
    lines.push(dimmed("══════════════════════════════════════"));
    lines.push(String::new());
    assert(views_of(lines@) =~= spec_send_banner(iface@, spec_spaced(frame.id, frame.data@)));
    lines
}

/// The line shown once a single frame was sent.
pub fn sent_line() -> (res: String)
    ensures
        res@ == styled(seq!['1'], fg(seq!['3', '2'], "Frame sent."@)),
{
    bold(green("Frame sent.").as_str())
}

/// The lines shown before cyclic sending: the interface, the frame, and the
/// interval (`<ms> ms`) or the frequency (`<hz> hz`), then how to stop.
pub open spec fn spec_cyclic_banner(iface: Seq<char>, frame: Seq<char>, timing: Seq<char>) -> Seq<Seq<char>> {
    seq![
        Seq::empty(),
        styled(seq!['1'], "Starting cyclic CAN send"@),
        labelled("Interface:"@, styled(seq!['1'], fg(seq!['3', '6'], iface))),
        labelled("Frame:"@, fg(seq!['3', '2'], frame)),
        timing,
        fg(seq!['3', '3'], "Press Ctrl+C to stop."@),
        Seq::empty(),
    ]
}

/// The lines shown before sending every `millis` milliseconds.
pub fn cyclic_interval_banner(iface: &str, frame: &SendFrame, millis: u64) -> (res: Vec<String>)
    ensures
        views_of(res@) == spec_cyclic_banner(
            iface@,
            spec_spaced(frame.id, frame.data@),
            labelled("Interval:"@, fg(seq!['3', '2'], dec_text(millis as nat))) + " ms"@,
        ),
{
    let mut number = String::new();
    push_dec(&mut number, millis);
    let mut timing = label_line("Interval:", green(number.as_str()).as_str());
    timing.append(" ms");
    cyclic_banner(iface, frame, timing)
}

/// The lines shown before sending at the frequency of an interval of
/// `millis` milliseconds (`1000 / millis` hertz).
pub fn cyclic_frequency_banner(iface: &str, frame: &SendFrame, millis: u64) -> (res: Vec<String>)
    requires
        millis > 0,
    ensures
        views_of(res@) == spec_cyclic_banner(
            iface@,
            spec_spaced(frame.id, frame.data@),
            labelled("Frequency:"@, fg(seq!['3', '2'], dec_text((1000u64 / millis) as nat))) + " hz"@,
        ),
{
    let mut number = String::new();
    push_dec(&mut number, frequency_of_interval(millis));
    let mut timing = label_line("Frequency:", green(number.as_str()).as_str());
    timing.append(" hz");
    cyclic_banner(iface, frame, timing)
}

fn cyclic_banner(iface: &str, frame: &SendFrame, timing: String) -> (res: Vec<String>)
    ensures
        views_of(res@) == spec_cyclic_banner(iface@, spec_spaced(frame.id, frame.data@), timing@),
{
    let spaced = frame.format_spaced();
    let ghost t = timing@;
    let mut lines: Vec<String> = Vec::new();
    lines.push(String::new());
    lines.push(bold("Starting cyclic CAN send"));
    lines.push(label_line("Interface:", bold(cyan(iface).as_str()).as_str()));
    lines.push(label_line("Frame:", green(spaced.as_str()).as_str()));
    lines.push(timing);
    lines.push(yellow("Press Ctrl+C to stop."));
    lines.push(String::new());
    assert(views_of(lines@) =~= spec_cyclic_banner(iface@, spec_spaced(frame.id, frame.data@), t));
    lines
}

} // verus!
