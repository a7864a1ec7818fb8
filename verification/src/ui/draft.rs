//! The set-up form: the values being edited for each kind of interface.
use vstd::prelude::*;

use crate::setup::models::{
    slcan_speeds, spec_bitrate_text, spec_can_bitrates, spec_slcan_speeds, spec_speed_text,
    CanBitrate, CanConfig, CanMode, NativeConfig, SlcanConfig, VirtualConfig,
};
use crate::text::{
    chars_of, comma_joined, is_control, is_control_char, parse_unsigned, parse_unsigned_chars,
    push_str, string_of, trim, trim_chars, views_of,
};

verus! {

/// A key press, as the terminal interface sees it.
#[derive(Debug, Clone, Copy, PartialEq, Eq, Structural)]
pub enum Key {
    Up,
    Down,
    Left,
    Right,
    Enter,
    Esc,
    Tab,
    Backspace,
    Char(char),
    Other,
}

/// `(current + delta)` taken modulo `len`, as a position in a list of `len`
/// choices that wraps around; 0 for an empty list.
pub fn cycle_index(current: usize, len: usize, delta: isize) -> (res: usize)
    requires
        len > 0 ==> current <= isize::MAX && len <= isize::MAX && isize::MIN <= current + delta
            <= isize::MAX,
    ensures
        len == 0 ==> res == 0,
        len > 0 ==> res as int == (current + delta) % (len as int) && res < len,
{
    if len == 0 {
        return 0;
    }
    let next: isize = current as isize + delta;
    let r = next.checked_rem_euclid(len as isize);
    match r {
        Some(v) => v as usize,
        None => 0,
    }
}

/// A text field that must not be blank; the label names it in the error.
#[derive(Debug, Clone, Copy, PartialEq, Eq)]
pub struct EmptyField {
    pub label: &'static str,
}

impl EmptyField {
    /// `<label> cannot be empty`.
    pub fn message(&self) -> (res: String)
        ensures
            res@ == self.label@ + " cannot be empty"@,
    {
        let mut out = String::new();
        push_str(&mut out, self.label);
        out.append(" cannot be empty");
        out
    }
}

/// The text with surrounding whitespace removed, refused when nothing is
/// left.
pub fn required_text(label: &'static str, value: &str) -> (res: Result<String, EmptyField>)
    ensures
        trim(value@).len() > 0 ==> (res matches Ok(s) && s@ == trim(value@)),
        trim(value@).len() == 0 ==> res == Err::<String, EmptyField>(EmptyField { label }),
{
    let v = chars_of(value);
    let t = trim_chars(&v);
    if t.len() == 0 {
        return Err(EmptyField { label });
    }
    Ok(string_of(&t))
}

/// The UART baud rates offered for SLCAN adapters, as text.
pub open spec fn uart_baud_text(i: int) -> Seq<char> {
    if i == 0 {
        "115200"@
    } else if i == 1 {
        "230400"@
    } else if i == 2 {
        "460800"@
    } else if i == 3 {
        "921600"@
    } else {
        "3000000"@
    }
}

/// The number of UART baud rates offered.
pub const UART_BAUD_COUNT: usize = 5;

/// The UART baud rate offered at position `i`, as text.
pub fn uart_baud_option(i: usize) -> (res: &'static str)
    requires
        i < UART_BAUD_COUNT,
    ensures
        res@ == uart_baud_text(i as int),
{
    if i == 0 {
        "115200"
    } else if i == 1 {
        "230400"
    } else if i == 2 {
        "460800"
    } else if i == 3 {
        "921600"
    } else {
        "3000000"
    }
}

/// The values of the set-up form.
pub struct SetupDraft {
    mode: CanMode,
    native_iface: String,
    native_bitrate: usize,
    slcan_tty: String,
    slcan_iface: String,
    slcan_speed: usize,
    slcan_uart: usize,
    virtual_iface: String,
    serial_candidates: Vec<String>,
}

/// A view of the form, with every text as characters.
pub struct DraftView {
    pub mode: CanMode,
    pub native_iface: Seq<char>,
    pub native_bitrate: nat,
    pub slcan_tty: Seq<char>,
    pub slcan_iface: Seq<char>,
    pub slcan_speed: nat,
    pub slcan_uart: nat,
    pub virtual_iface: Seq<char>,
    pub serial_candidates: Seq<String>,
}

impl View for SetupDraft {
    type V = DraftView;

    closed spec fn view(&self) -> DraftView {
        DraftView {
            mode: self.mode,
            native_iface: self.native_iface@,
            native_bitrate: self.native_bitrate as nat,
            slcan_tty: self.slcan_tty@,
            slcan_iface: self.slcan_iface@,
            slcan_speed: self.slcan_speed as nat,
            slcan_uart: self.slcan_uart as nat,
            virtual_iface: self.virtual_iface@,
            serial_candidates: self.serial_candidates@,
        }
    }
}

/// The form's starting values.
pub open spec fn initial_draft(serial_candidates: Seq<String>) -> DraftView {
    DraftView {
        mode: CanMode::Native,
        native_iface: "can0"@,
        native_bitrate: 1,
        slcan_tty: "/dev/ttyUSB0"@,
        slcan_iface: "slcan0"@,
        slcan_speed: 2,
        slcan_uart: 4,
        virtual_iface: "vcan0"@,
        serial_candidates,
    }
}

/// The number of fields of the form for each kind.
pub open spec fn spec_form_len(mode: CanMode) -> nat {
    match mode {
        CanMode::Native => 2,
        CanMode::Slcan => 4,
        CanMode::Virtual => 1,
    }
}

/// The field holding the interface name for each kind.
pub open spec fn spec_iface_field(mode: CanMode) -> nat {
    match mode {
        CanMode::Native => 0,
        CanMode::Slcan => 1,
        CanMode::Virtual => 0,
    }
}

/// The position of each kind in the list of kinds.
pub open spec fn spec_mode_index(mode: CanMode) -> nat {
    match mode {
        CanMode::Native => 0,
        CanMode::Slcan => 1,
        CanMode::Virtual => 2,
    }
}

/// The kind at a position of the list of kinds (the last one beyond it).
pub open spec fn spec_mode_at(selected: int) -> CanMode {
    if selected == 0 {
        CanMode::Native
    } else if selected == 1 {
        CanMode::Slcan
    } else {
        CanMode::Virtual
    }
}

/// The form after `cycle_option(field, delta)`: the selection of a list
/// field moves `delta` places round its list; other fields are unchanged.
pub open spec fn spec_cycle(d: DraftView, field: int, delta: int) -> DraftView {
    if d.mode == CanMode::Native && field == 1 {
        DraftView { native_bitrate: ((d.native_bitrate + delta) % 8) as nat, ..d }
    } else if d.mode == CanMode::Slcan && field == 2 {
        DraftView { slcan_speed: ((d.slcan_speed + delta) % 9) as nat, ..d }
    } else if d.mode == CanMode::Slcan && field == 3 {
        DraftView { slcan_uart: ((d.slcan_uart + delta) % 5) as nat, ..d }
    } else {
        d
    }
}

/// The hint under the form.
pub open spec fn spec_form_hint(d: DraftView) -> Seq<char> {
    if d.mode == CanMode::Slcan && d.serial_candidates.len() > 0 {
        "Detected serial devices: "@ + comma_joined(views_of(d.serial_candidates))
    } else {
        "Press Enter to preview the commands for this setup."@
    }
}

/// Each list selection of the form is a position in its list.
pub open spec fn selections_valid(d: DraftView) -> bool {
    &&& d.native_bitrate < 8
    &&& d.slcan_speed < 9
    &&& d.slcan_uart < 5
}

/// The selection that `cycle_option(field, delta)` moves, plus `delta`,
/// fits in an `isize`, where the sum is taken.
pub open spec fn cycle_fits(d: DraftView, field: int, delta: int) -> bool {
    if d.mode == CanMode::Native && field == 1 {
        d.native_bitrate + delta <= isize::MAX
    } else if d.mode == CanMode::Slcan && field == 2 {
        d.slcan_speed + delta <= isize::MAX
    } else if d.mode == CanMode::Slcan && field == 3 {
        d.slcan_uart + delta <= isize::MAX
    } else {
        true
    }
}

/// The form after typing `ch` into `field`: a control character is
/// ignored, as is any field that is no text field.
pub open spec fn spec_push_char(d: DraftView, field: int, ch: char) -> DraftView {
    if is_control_char(ch) {
        d
    } else if d.mode == CanMode::Native && field == 0 {
        DraftView { native_iface: d.native_iface.push(ch), ..d }
    } else if d.mode == CanMode::Slcan && field == 0 {
        DraftView { slcan_tty: d.slcan_tty.push(ch), ..d }
    } else if d.mode == CanMode::Slcan && field == 1 {
        DraftView { slcan_iface: d.slcan_iface.push(ch), ..d }
    } else if d.mode == CanMode::Virtual && field == 0 {
        DraftView { virtual_iface: d.virtual_iface.push(ch), ..d }
    } else {
        d
    }
}

/// `s` without its last character, if any.
pub open spec fn drop_last_char(s: Seq<char>) -> Seq<char> {
    if s.len() == 0 {
        s
    } else {
        s.drop_last()
    }
}

/// The form after a backspace in `field`.
pub open spec fn spec_backspace(d: DraftView, field: int) -> DraftView {
    if d.mode == CanMode::Native && field == 0 {
        DraftView { native_iface: drop_last_char(d.native_iface), ..d }
    } else if d.mode == CanMode::Slcan && field == 0 {
        DraftView { slcan_tty: drop_last_char(d.slcan_tty), ..d }
    } else if d.mode == CanMode::Slcan && field == 1 {
        DraftView { slcan_iface: drop_last_char(d.slcan_iface), ..d }
    } else if d.mode == CanMode::Virtual && field == 0 {
        DraftView { virtual_iface: drop_last_char(d.virtual_iface), ..d }
    } else {
        d
    }
}

/// The form after taking the interface name of `config` into the field of
/// its kind.
pub open spec fn spec_copy_iface(d: DraftView, config: CanConfig) -> DraftView {
    match config {
        CanConfig::Native(cfg) => DraftView { native_iface: cfg.iface@, ..d },
        CanConfig::Slcan(cfg) => DraftView { slcan_iface: cfg.iface@, ..d },
        CanConfig::Virtual(cfg) => DraftView { virtual_iface: cfg.iface@, ..d },
    }
}

/// The lines of the form: label and value of each field.
pub open spec fn spec_form_lines(d: DraftView) -> Seq<Seq<char>> {
    match d.mode {
        CanMode::Native => seq![
            "Interface name: "@ + d.native_iface,
            "CAN bitrate: "@ + spec_bitrate_text(spec_can_bitrates()[d.native_bitrate as int]),
        ],
        CanMode::Slcan => seq![
            "Serial device: "@ + d.slcan_tty,
            "Interface name: "@ + d.slcan_iface,
            "CAN bitrate: "@ + spec_speed_text(
                spec_slcan_speeds()[d.slcan_speed as int].0,
                spec_slcan_speeds()[d.slcan_speed as int].1,
            ),
            "UART baud rate: "@ + uart_baud_text(d.slcan_uart as int),
        ],
        CanMode::Virtual => seq!["Interface name: "@ + d.virtual_iface],
    }
}

/// Whether `config` is what the form describes: the interface names
/// trimmed, the selections taken from their lists.
pub open spec fn spec_built(d: DraftView, config: CanConfig) -> bool {
    match config {
        CanConfig::Native(cfg) => d.mode == CanMode::Native && cfg.iface@ == trim(d.native_iface)
            && cfg.bitrate == spec_can_bitrates()[d.native_bitrate as int],
        CanConfig::Slcan(cfg) => d.mode == CanMode::Slcan && cfg.tty@ == trim(d.slcan_tty)
            && cfg.iface@ == trim(d.slcan_iface) && cfg.speed.bitrate
            == spec_slcan_speeds()[d.slcan_speed as int].0 && cfg.speed.flag@
            == spec_slcan_speeds()[d.slcan_speed as int].1 && parse_unsigned(
            uart_baud_text(d.slcan_uart as int),
            10,
            0xFFFF_FFFF,
        ) == Some(cfg.uart_baud as nat),
        CanConfig::Virtual(cfg) => d.mode == CanMode::Virtual && cfg.iface@ == trim(
            d.virtual_iface,
        ),
    }
}

/// The blank field that stops the form from becoming a configuration,
/// checked in the order of the form.
pub open spec fn spec_build_error(d: DraftView) -> Option<EmptyField> {
    match d.mode {
        CanMode::Native => if trim(d.native_iface).len() == 0 {
            Some(EmptyField { label: "CAN interface name" })
        } else {
            None
        },
        CanMode::Slcan => if trim(d.slcan_tty).len() == 0 {
            Some(EmptyField { label: "serial device" })
        } else if trim(d.slcan_iface).len() == 0 {
            Some(EmptyField { label: "SLCAN interface name" })
        } else {
            None
        },
        CanMode::Virtual => if trim(d.virtual_iface).len() == 0 {
            Some(EmptyField { label: "virtual interface name" })
        } else {
            None
        },
    }
}

proof fn lemma_uart_texts_parse(i: int)
    requires
        0 <= i < 5,
    ensures
        parse_unsigned(uart_baud_text(i), 10, 0xFFFF_FFFF) is Some,
{
    reveal_strlit("115200");
    reveal_strlit("230400");
    reveal_strlit("460800");
    reveal_strlit("921600");
    reveal_strlit("3000000");
    let s = uart_baud_text(i);
    reveal_with_fuel(crate::text::digits_value, 8);
    assert(s.drop_last().drop_last().drop_last().drop_last().drop_last().drop_last().len() <= 1);
}

impl SetupDraft {
    /// Each list selection is a position in its list.
    #[verifier::type_invariant]
    pub(crate) open spec fn selections_in_range(&self) -> bool {
        selections_valid(self@)
    }

    /// The form's starting values: a native interface `can0` at 500 kbit,
    /// or an SLCAN interface `slcan0` on `/dev/ttyUSB0` at 250 kbit with a
    /// 3000000 baud UART, or a virtual interface `vcan0`.
    pub fn new(serial_candidates: Vec<String>) -> (res: Self)
        ensures
            res@ == initial_draft(serial_candidates@),
    {
        SetupDraft {
            mode: CanMode::Native,
            native_iface: String::from_str("can0"),
            native_bitrate: 1,
            slcan_tty: String::from_str("/dev/ttyUSB0"),
            slcan_iface: String::from_str("slcan0"),
            slcan_speed: 2,
            slcan_uart: 4,
            virtual_iface: String::from_str("vcan0"),
            serial_candidates,
        }
    }

    /// The kind being set up.
    pub fn mode(&self) -> (res: CanMode)
        ensures
            res == self@.mode,
    {
        self.mode
    }

    /// The serial devices found on the machine.
    pub fn serial_candidates(&self) -> (res: &Vec<String>)
        ensures
            res@ == self@.serial_candidates,
    {
        &self.serial_candidates
    }

    /// The hint under the form: the serial devices found, while an SLCAN
    /// interface is edited and some were found, else how to go on.
    pub fn form_hint(&self) -> (res: String)
        ensures
            res@ == spec_form_hint(self@),
    {
        if self.mode == CanMode::Slcan && self.serial_candidates.len() > 0 {
            let mut out = String::from_str("Detected serial devices: ");
            let mut i: usize = 0;
            while i < self.serial_candidates.len()
                invariant
                    0 < self.serial_candidates@.len(),
                    i <= self.serial_candidates@.len(),
                    out@ == "Detected serial devices: "@ + comma_joined(
                        views_of(self.serial_candidates@.take(i as int)),
                    ),
                decreases self.serial_candidates.len() - i,
            {
                proof {
                    let t = views_of(self.serial_candidates@.take(i + 1));
                    assert(t.drop_last() =~= views_of(self.serial_candidates@.take(i as int)));
                    assert(t.last() == self.serial_candidates@[i as int]@);
                }
                if i > 0 {
                    out.append(", ");
                }
                out.append(self.serial_candidates[i].as_str());
                i = i + 1;
            }
            assert(self.serial_candidates@.take(i as int) =~= self.serial_candidates@);
            out
        } else {
            String::from_str("Press Enter to preview the commands for this setup.")
        }
    }

    /// Chooses the kind at position `selected` of the list of kinds.
    pub fn set_mode(&mut self, selected: usize)
        ensures
            final(self)@ == (DraftView { mode: spec_mode_at(selected as int), ..old(self)@ }),
    {
        proof {
            use_type_invariant(&*self);
        }
        self.mode = match selected {
            0 => CanMode::Native,
            1 => CanMode::Slcan,
            _ => CanMode::Virtual,
        };
    }

    /// The position of the kind in the list of kinds.
    pub fn mode_index(&self) -> (res: usize)
        ensures
            res == spec_mode_index(self@.mode),
    {
        match self.mode {
            CanMode::Native => 0,
            CanMode::Slcan => 1,
            CanMode::Virtual => 2,
        }
    }

    /// The title of the form.
    pub fn form_title(&self) -> (res: &'static str)
        ensures
            self@.mode == CanMode::Native ==> res@ == "Native CAN Configuration"@,
            self@.mode == CanMode::Slcan ==> res@ == "SLCAN Configuration"@,
            self@.mode == CanMode::Virtual ==> res@ == "Virtual CAN Configuration"@,
    {
        match self.mode {
            CanMode::Native => "Native CAN Configuration",
            CanMode::Slcan => "SLCAN Configuration",
            CanMode::Virtual => "Virtual CAN Configuration",
        }
    }

    /// The number of fields of the form.
    pub fn form_len(&self) -> (res: usize)
        ensures
            res == spec_form_len(self@.mode),
    {
        match self.mode {
            CanMode::Native => 2,
            CanMode::Slcan => 4,
            CanMode::Virtual => 1,
        }
    }

    /// The field holding the interface name.
    pub fn iface_field_index(&self) -> (res: usize)
        ensures
            res == spec_iface_field(self@.mode),
    {
        match self.mode {
            CanMode::Native => 0,
            CanMode::Slcan => 1,
            CanMode::Virtual => 0,
        }
    }

    /// Moves the selection of a list field `delta` places, wrapping around.
    pub fn cycle_option(&mut self, field: usize, delta: isize)
        requires
            cycle_fits(old(self)@, field as int, delta as int),
        ensures
            final(self)@ == spec_cycle(old(self)@, field as int, delta as int),
    {
        proof {
            use_type_invariant(&*self);
        }
        match self.mode {
            CanMode::Native => {
                if field == 1 {
                    self.native_bitrate = cycle_index(self.native_bitrate, 8, delta);
                }
            },
            CanMode::Slcan => {
                if field == 2 {
                    self.slcan_speed = cycle_index(self.slcan_speed, 9, delta);
                } else if field == 3 {
                    self.slcan_uart = cycle_index(self.slcan_uart, UART_BAUD_COUNT, delta);
                }
            },
            CanMode::Virtual => {},
        }
    }

    /// Types `ch` into a text field.
    pub fn push_char(&mut self, field: usize, ch: char)
        ensures
            final(self)@ == spec_push_char(old(self)@, field as int, ch),
    {
        proof {
            use_type_invariant(&*self);
        }
        if is_control(ch) {
            return ;
        }
        match self.mode {
            CanMode::Native => {
                if field == 0 {
                    let mut t = self.native_iface.clone();
                    t.push(ch);
                    self.native_iface = t;
                }
            },
            CanMode::Slcan => {
                if field == 0 {
                    let mut t = self.slcan_tty.clone();
                    t.push(ch);
                    self.slcan_tty = t;
                } else if field == 1 {
                    let mut t = self.slcan_iface.clone();
                    t.push(ch);
                    self.slcan_iface = t;
                }
            },
            CanMode::Virtual => {
                if field == 0 {
                    let mut t = self.virtual_iface.clone();
                    t.push(ch);
                    self.virtual_iface = t;
                }
            },
        }
    }

    /// Deletes the last character of a text field.
    pub fn backspace(&mut self, field: usize)
        ensures
            final(self)@ == spec_backspace(old(self)@, field as int),
    {
        proof {
            use_type_invariant(&*self);
        }
        match self.mode {
            CanMode::Native => {
                if field == 0 {
                    let mut t = self.native_iface.clone();
                    t.pop();
                    self.native_iface = t;
                }
            },
            CanMode::Slcan => {
                if field == 0 {
                    let mut t = self.slcan_tty.clone();
                    t.pop();
                    self.slcan_tty = t;
                } else if field == 1 {
                    let mut t = self.slcan_iface.clone();
                    t.pop();
                    self.slcan_iface = t;
                }
            },
            CanMode::Virtual => {
                if field == 0 {
                    let mut t = self.virtual_iface.clone();
                    t.pop();
                    self.virtual_iface = t;
                }
            },
        }
    }

    /// Takes the interface name of `config` into the field of its kind.
    pub fn copy_iface_from_config(&mut self, config: &CanConfig)
        ensures
            final(self)@ == spec_copy_iface(old(self)@, *config),
    {
        proof {
            use_type_invariant(&*self);
        }
        match config {
            CanConfig::Native(cfg) => self.native_iface = cfg.iface.clone(),
            CanConfig::Slcan(cfg) => self.slcan_iface = cfg.iface.clone(),
            CanConfig::Virtual(cfg) => self.virtual_iface = cfg.iface.clone(),
        }
    }

    /// The lines of the form, one per field: the label and the value.
    pub fn form_lines(&self) -> (res: Vec<String>)
        ensures
            res@.len() == spec_form_lines(self@).len(),
            forall|i: int| 0 <= i < res@.len() ==> #[trigger] res@[i]@ == spec_form_lines(self@)[i],
    {
        proof {
            use_type_invariant(self);
        }
        let mut lines: Vec<String> = Vec::new();
        match self.mode {
            CanMode::Native => {
                let bitrates = CanBitrate::can_bitrates();
                let mut a = String::from_str("Interface name: ");
                a.append(self.native_iface.as_str());
                let mut b = String::from_str("CAN bitrate: ");
                b.append(bitrates[self.native_bitrate].text().as_str());
                lines.push(a);
                lines.push(b);
            },
            CanMode::Slcan => {
                let speeds = slcan_speeds();
                let mut a = String::from_str("Serial device: ");
                a.append(self.slcan_tty.as_str());
                let mut b = String::from_str("Interface name: ");
                b.append(self.slcan_iface.as_str());
                let mut c = String::from_str("CAN bitrate: ");
                c.append(speeds[self.slcan_speed].text().as_str());
                let mut d = String::from_str("UART baud rate: ");
                d.append(uart_baud_option(self.slcan_uart));
                lines.push(a);
                lines.push(b);
                lines.push(c);
                lines.push(d);
            },
            CanMode::Virtual => {
                let mut a = String::from_str("Interface name: ");
                a.append(self.virtual_iface.as_str());
                lines.push(a);
            },
        }
        lines
    }

    /// The configuration the form describes, or the first blank field.
    pub fn build_config(&self) -> (res: Result<CanConfig, EmptyField>)
        ensures
            spec_build_error(self@) is None ==> (res matches Ok(config) && spec_built(self@, config)),
            spec_build_error(self@) matches Some(e) ==> res == Err::<CanConfig, EmptyField>(e),
    {
        proof {
            use_type_invariant(self);
        }
        match self.mode {
            CanMode::Native => {
                let iface = match required_text("CAN interface name", self.native_iface.as_str()) {
                    Ok(s) => s,
                    Err(e) => {
                        return Err(e);
                    },
                };
                let bitrates = CanBitrate::can_bitrates();
                Ok(CanConfig::Native(NativeConfig::new(iface, bitrates[self.native_bitrate])))
            },
            CanMode::Slcan => {
                let tty = match required_text("serial device", self.slcan_tty.as_str()) {
                    Ok(s) => s,
                    Err(e) => {
                        return Err(e);
                    },
                };
                let iface = match required_text("SLCAN interface name", self.slcan_iface.as_str()) {
                    Ok(s) => s,
                    Err(e) => {
                        return Err(e);
                    },
                };
                let speeds = slcan_speeds();
                let speed = speeds[self.slcan_speed].clone();
                let baud_text = chars_of(uart_baud_option(self.slcan_uart));
                proof {
                    lemma_uart_texts_parse(self.slcan_uart as int);
                }
                let baud = match parse_unsigned_chars(&baud_text, 10, 0xFFFF_FFFF) {
                    Some(b) => b as u32,
                    None => 0,
                };
                Ok(CanConfig::Slcan(SlcanConfig::new(tty, iface, speed, baud)))
            },
            CanMode::Virtual => {
                let iface = match required_text(
                    "virtual interface name",
                    self.virtual_iface.as_str(),
                ) {
                    Ok(s) => s,
                    Err(e) => {
                        return Err(e);
                    },
                };
                Ok(CanConfig::Virtual(VirtualConfig::new(iface)))
            },
        }
    }
}

/// One place forward then one back, or back then forward, round a list of
/// `m` entries returns to the same entry.
proof fn lemma_wrap_back_and_forth(n: int, m: int)
    requires
        0 <= n < m,
    ensures
        (((n + 1) % m) - 1) % m == n,
        (((n - 1) % m) + 1) % m == n,
{
    vstd::arithmetic::div_mod::lemma_small_mod(n as nat, m as nat);
    if n + 1 < m {
        vstd::arithmetic::div_mod::lemma_small_mod((n + 1) as nat, m as nat);
    } else {
        vstd::arithmetic::div_mod::lemma_mod_self_0(m);
        assert((n + 1) % m == 0);
        vstd::arithmetic::div_mod::lemma_mod_add_multiples_vanish(-1, m);
        vstd::arithmetic::div_mod::lemma_small_mod((m - 1) as nat, m as nat);
    }
    if n > 0 {
        vstd::arithmetic::div_mod::lemma_small_mod((n - 1) as nat, m as nat);
    } else {
        vstd::arithmetic::div_mod::lemma_mod_add_multiples_vanish(-1, m);
        vstd::arithmetic::div_mod::lemma_small_mod((m - 1) as nat, m as nat);
        vstd::arithmetic::div_mod::lemma_mod_self_0(m);
    }
}

/// Moving the selection of a list field one place forward and then one
/// place back, or back and then forward, leaves the form as it was.
pub proof fn law_cycle_back_and_forth(d: DraftView, field: int)
    requires
        selections_valid(d),
    ensures
        spec_cycle(spec_cycle(d, field, 1), field, -1) == d,
        spec_cycle(spec_cycle(d, field, -1), field, 1) == d,
{
    lemma_wrap_back_and_forth(d.native_bitrate as int, 8);
    lemma_wrap_back_and_forth(d.slcan_speed as int, 9);
    lemma_wrap_back_and_forth(d.slcan_uart as int, 5);
}

/// Typing a character that is no control character into a field and then
/// deleting one character leaves the form as it was.
pub proof fn law_type_then_delete(d: DraftView, field: int, ch: char)
    requires
        !is_control_char(ch),
    ensures
        spec_backspace(spec_push_char(d, field, ch), field) == d,
{
    assert(d.native_iface.push(ch).drop_last() =~= d.native_iface);
    assert(d.slcan_tty.push(ch).drop_last() =~= d.slcan_tty);
    assert(d.slcan_iface.push(ch).drop_last() =~= d.slcan_iface);
    assert(d.virtual_iface.push(ch).drop_last() =~= d.virtual_iface);
}

/// The label of form line `f`, where that line is a text field: the serial
/// device and the interface name.
pub open spec fn text_field_label(mode: CanMode, f: int) -> Option<Seq<char>> {
    match mode {
        CanMode::Native => if f == 0 {
            Some("Interface name: "@)
        } else {
            None
        },
        CanMode::Slcan => if f == 0 {
            Some("Serial device: "@)
        } else if f == 1 {
            Some("Interface name: "@)
        } else {
            None
        },
        CanMode::Virtual => if f == 0 {
            Some("Interface name: "@)
        } else {
            None
        },
    }
}

/// Typing a character that is no control character into field `f` edits
/// only the line of that field: where `f` is a text field, its line (which
/// begins with the field's label) gets the character at its end; every
/// other line stays as it was, and nothing changes elsewhere.
pub proof fn law_typing_edits_its_own_line(d: DraftView, f: int, ch: char)
    requires
        !is_control_char(ch),
    ensures
        ({
            let before = spec_form_lines(d);
            let after = spec_form_lines(spec_push_char(d, f, ch));
            &&& after.len() == before.len()
            &&& forall|i: int| 0 <= i < before.len() && i != f ==> #[trigger] after[i] == before[i]
            &&& text_field_label(d.mode, f) matches Some(label) ==> {
                &&& 0 <= f < before.len()
                &&& before[f].take(label.len() as int) == label
                &&& after[f] == before[f].push(ch)
            }
            &&& text_field_label(d.mode, f) is None ==> after == before
        }),
{
    let before = spec_form_lines(d);
    let after = spec_form_lines(spec_push_char(d, f, ch));
    match text_field_label(d.mode, f) {
        Some(label) => {
            assert(before[f].take(label.len() as int) =~= label);
            match d.mode {
                CanMode::Native => assert(after[f] =~= before[f].push(ch)),
                CanMode::Slcan => assert(after[f] =~= before[f].push(ch)),
                CanMode::Virtual => assert(after[f] =~= before[f].push(ch)),
            }
        },
        None => {},
    }
}

/// A backspace in field `f` edits only the line of that field: where `f`
/// is a text field with something typed in it, its line loses its last
/// character, else nothing changes; every other line stays as it was.
pub proof fn law_backspace_edits_its_own_line(d: DraftView, f: int)
    ensures
        ({
            let before = spec_form_lines(d);
            let after = spec_form_lines(spec_backspace(d, f));
            &&& after.len() == before.len()
            &&& forall|i: int| 0 <= i < before.len() && i != f ==> #[trigger] after[i] == before[i]
            &&& text_field_label(d.mode, f) matches Some(label) ==> {
                &&& 0 <= f < before.len()
                &&& before[f].take(label.len() as int) == label
                &&& after[f] == if before[f].len() > label.len() {
                    before[f].drop_last()
                } else {
                    before[f]
                }
            }
            &&& text_field_label(d.mode, f) is None ==> after == before
        }),
{
    let before = spec_form_lines(d);
    let after = spec_form_lines(spec_backspace(d, f));
    match text_field_label(d.mode, f) {
        Some(label) => {
            assert(before[f].take(label.len() as int) =~= label);
            match d.mode {
                CanMode::Native => {
                    assert(label + drop_last_char(d.native_iface) =~= if before[f].len() > label.len() {
                        before[f].drop_last()
                    } else {
                        before[f]
                    });
                },
                CanMode::Slcan => {
                    if f == 0 {
                        assert(label + drop_last_char(d.slcan_tty) =~= if before[f].len()
                            > label.len() {
                            before[f].drop_last()
                        } else {
                            before[f]
                        });
                    } else {
                        assert(label + drop_last_char(d.slcan_iface) =~= if before[f].len()
                            > label.len() {
                            before[f].drop_last()
                        } else {
                            before[f]
                        });
                    }
                },
                CanMode::Virtual => {
                    assert(label + drop_last_char(d.virtual_iface) =~= if before[f].len()
                        > label.len() {
                        before[f].drop_last()
                    } else {
                        before[f]
                    });
                },
            }
        },
        None => {},
    }
}

/// A configuration built from the form sets up the interface named on the
/// form's `Interface name` line and, for SLCAN, the device on its `Serial
/// device` line, each with surrounding whitespace removed.
pub proof fn law_built_config_reads_the_form(d: DraftView, config: CanConfig)
    requires
        spec_built(d, config),
    ensures
        ({
            let k = spec_iface_field(d.mode) as int;
            let line = spec_form_lines(d)[k];
            &&& text_field_label(d.mode, k) == Some("Interface name: "@)
            &&& line.take(16) == "Interface name: "@
            &&& config.spec_iface() == trim(line.skip(16))
        }),
        config matches CanConfig::Slcan(cfg) ==> {
            let line = spec_form_lines(d)[0];
            &&& text_field_label(d.mode, 0) == Some("Serial device: "@)
            &&& line.take(15) == "Serial device: "@
            &&& cfg.tty@ == trim(line.skip(15))
        },
{
    reveal_strlit("Interface name: ");
    reveal_strlit("Serial device: ");
    let k = spec_iface_field(d.mode) as int;
    let line = spec_form_lines(d)[k];
    let name = "Interface name: "@;
    match config {
        CanConfig::Native(_) => {
            assert(line.take(16) =~= name);
            assert(line.skip(16) =~= d.native_iface);
        },
        CanConfig::Slcan(_) => {
            assert(line.take(16) =~= name);
            assert(line.skip(16) =~= d.slcan_iface);
            let tty_line = spec_form_lines(d)[0];
            assert(tty_line.take(15) =~= "Serial device: "@);
            assert(tty_line.skip(15) =~= d.slcan_tty);
        },
        CanConfig::Virtual(_) => {
            assert(line.take(16) =~= name);
            assert(line.skip(16) =~= d.virtual_iface);
        },
    }
}

} // verus!
