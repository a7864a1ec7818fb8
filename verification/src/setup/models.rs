//! The configuration of a CAN interface.
use vstd::prelude::*;

use crate::text::{dec_text, push_dec, push_str};

verus! {

/// The bitrates a native CAN controller can be set to.
#[derive(Debug, Clone, Copy, PartialEq, Eq, Structural)]
pub enum CanBitrate {
    B10K,
    B20K,
    B50K,
    B100K,
    B125K,
    B250K,
    B500K,
    B1M,
}

/// The bitrate in bit/s.
pub open spec fn bitrate_value(b: CanBitrate) -> u32 {
    match b {
        CanBitrate::B10K => 10_000,
        CanBitrate::B20K => 20_000,
        CanBitrate::B50K => 50_000,
        CanBitrate::B100K => 100_000,
        CanBitrate::B125K => 125_000,
        CanBitrate::B250K => 250_000,
        CanBitrate::B500K => 500_000,
        CanBitrate::B1M => 1_000_000,
    }
}

/// The short name of a bitrate, `500 kbit` or `1 Mbit`.
pub open spec fn bitrate_label(b: CanBitrate) -> Seq<char> {
    match b {
        CanBitrate::B1M => "1 Mbit"@,
        CanBitrate::B500K => "500 kbit"@,
        CanBitrate::B250K => "250 kbit"@,
        CanBitrate::B125K => "125 kbit"@,
        CanBitrate::B100K => "100 kbit"@,
        CanBitrate::B50K => "50 kbit"@,
        CanBitrate::B20K => "20 kbit"@,
        CanBitrate::B10K => "10 kbit"@,
    }
}

/// The text shown for a bitrate in menus.
pub open spec fn spec_bitrate_text(b: CanBitrate) -> Seq<char> {
    bitrate_label(b) + " ("@ + dec_text(bitrate_value(b) as nat) + ")"@
}

/// All bitrates, fastest first.
pub open spec fn spec_can_bitrates() -> Seq<CanBitrate> {
    seq![
        CanBitrate::B1M,
        CanBitrate::B500K,
        CanBitrate::B250K,
        CanBitrate::B125K,
        CanBitrate::B100K,
        CanBitrate::B50K,
        CanBitrate::B20K,
        CanBitrate::B10K,
    ]
}

impl CanBitrate {
    /// The bitrate in bit/s.
    pub fn bitrate(&self) -> (res: u32)
        ensures
            res == bitrate_value(*self),
    {
        match self {
            CanBitrate::B10K => 10_000,
            CanBitrate::B20K => 20_000,
            CanBitrate::B50K => 50_000,
            CanBitrate::B100K => 100_000,
            CanBitrate::B125K => 125_000,
            CanBitrate::B250K => 250_000,
            CanBitrate::B500K => 500_000,
            CanBitrate::B1M => 1_000_000,
        }
    }

    /// All bitrates, sorted fastest first.
    pub fn can_bitrates() -> (res: Vec<CanBitrate>)
        ensures
            res@ == spec_can_bitrates(),
    {
        let res = vec![
            CanBitrate::B1M,
            CanBitrate::B500K,
            CanBitrate::B250K,
            CanBitrate::B125K,
            CanBitrate::B100K,
            CanBitrate::B50K,
            CanBitrate::B20K,
            CanBitrate::B10K,
        ];
        assert(res@ =~= spec_can_bitrates());
        res
    }

    /// The text shown for this bitrate in menus, `500 kbit (500000)`.
    pub fn text(&self) -> (res: String)
        ensures
            res@ == spec_bitrate_text(*self),
    {
        let label = match self {
            CanBitrate::B1M => "1 Mbit",
            CanBitrate::B500K => "500 kbit",
            CanBitrate::B250K => "250 kbit",
            CanBitrate::B125K => "125 kbit",
            CanBitrate::B100K => "100 kbit",
            CanBitrate::B50K => "50 kbit",
            CanBitrate::B20K => "20 kbit",
            CanBitrate::B10K => "10 kbit",
        };
        let mut out = String::from_str(label);
        out.append(" (");
        push_dec(&mut out, self.bitrate() as u64);
        out.append(")");
        out
    }
}

/// A bitrate of an SLCAN adapter and the `slcand` flag that selects it.
#[derive(Debug, Clone, Copy)]
pub struct SlcanSpeed {
    pub bitrate: u32,
    pub flag: &'static str,
}

/// The SLCAN bitrates as (bit/s, flag), fastest first.
pub open spec fn spec_slcan_speeds() -> Seq<(u32, Seq<char>)> {
    seq![
        (1_000_000u32, "s8"@),
        (800_000u32, "s7"@),
        (500_000u32, "s6"@),
        (250_000u32, "s5"@),
        (125_000u32, "s4"@),
        (100_000u32, "s3"@),
        (50_000u32, "s2"@),
        (20_000u32, "s1"@),
        (10_000u32, "s0"@),
    ]
}

/// `s` padded on the right with spaces up to `width` characters.
pub open spec fn space_pad_right(s: Seq<char>, width: nat) -> Seq<char> {
    if s.len() < width {
        s + Seq::new((width - s.len()) as nat, |i: int| ' ')
    } else {
        s
    }
}

/// The short name of an SLCAN bitrate.
pub open spec fn speed_label(bitrate: u32) -> Seq<char> {
    if bitrate == 1_000_000 {
        "1 Mbit"@
    } else if bitrate >= 1_000 {
        dec_text((bitrate / 1000) as nat) + " kbit"@
    } else {
        dec_text(bitrate as nat)
    }
}

/// The text shown for an SLCAN speed in menus.
pub open spec fn spec_speed_text(bitrate: u32, flag: Seq<char>) -> Seq<char> {
    space_pad_right(speed_label(bitrate), 10) + " ("@ + dec_text(bitrate as nat) + ", "@ + flag + ")"@
}

impl SlcanSpeed {
    /// The text shown for this speed in menus: the label padded to ten
    /// characters, then `(bitrate, flag)`.
    pub fn text(&self) -> (res: String)
        ensures
            res@ == spec_speed_text(self.bitrate, self.flag@),
    {
        let mut label = String::new();
        if self.bitrate == 1_000_000 {
            label.append("1 Mbit");
        } else if self.bitrate >= 1_000 {
            push_dec(&mut label, (self.bitrate / 1000) as u64);
            label.append(" kbit");
        } else {
            push_dec(&mut label, self.bitrate as u64);
        }
        let ghost l = label@;
        let cs = crate::text::chars_of(label.as_str());
        let mut k = cs.len();
        while k < 10
            invariant
                cs@ == l,
                l.len() <= k <= 10 || (k == l.len() && l.len() >= 10),
                label@ == l + Seq::new((k - l.len()) as nat, |i: int| ' '),
            decreases 10 - k,
        {
            label.push(' ');
            k = k + 1;
            assert(label@ =~= l + Seq::new((k - l.len()) as nat, |i: int| ' '));
        }
        proof {
            if l.len() >= 10 {
                assert(l + Seq::new(0nat, |i: int| ' ') =~= l);
            }
        }
        let mut out = label;
        out.append(" (");
        push_dec(&mut out, self.bitrate as u64);
        out.append(", ");
        push_str(&mut out, self.flag);
        out.append(")");
        out
    }
}

/// All SLCAN speeds, sorted fastest first.
pub fn slcan_speeds() -> (res: Vec<SlcanSpeed>)
    ensures
        res@.len() == spec_slcan_speeds().len(),
        forall|i: int|
            0 <= i < res@.len() ==> (#[trigger] res@[i]).bitrate == spec_slcan_speeds()[i].0
                && res@[i].flag@ == spec_slcan_speeds()[i].1,
{
    let res = vec![
        SlcanSpeed { bitrate: 1_000_000, flag: "s8" },
        SlcanSpeed { bitrate: 800_000, flag: "s7" },
        SlcanSpeed { bitrate: 500_000, flag: "s6" },
        SlcanSpeed { bitrate: 250_000, flag: "s5" },
        SlcanSpeed { bitrate: 125_000, flag: "s4" },
        SlcanSpeed { bitrate: 100_000, flag: "s3" },
        SlcanSpeed { bitrate: 50_000, flag: "s2" },
        SlcanSpeed { bitrate: 20_000, flag: "s1" },
        SlcanSpeed { bitrate: 10_000, flag: "s0" },
    ];
    res
}

/// The kind of CAN connection.
#[derive(Debug, Clone, Copy, PartialEq, Eq, Structural)]
pub enum CanMode {
    Native,
    Slcan,
    Virtual,
}

impl CanMode {
    /// The text shown for this kind in menus.
    pub fn text(&self) -> (res: &'static str)
        ensures
            *self == CanMode::Native ==> res@ == "Native CAN bus"@,
            *self == CanMode::Slcan ==> res@ == "Non-native CAN bus (slcand)"@,
            *self == CanMode::Virtual ==> res@ == "Virtual CAN bus (vcan)"@,
    {
        match self {
            CanMode::Native => "Native CAN bus",
            CanMode::Slcan => "Non-native CAN bus (slcand)",
            CanMode::Virtual => "Virtual CAN bus (vcan)",
        }
    }
}

/// A CAN controller of the machine, brought up at a bitrate.
#[derive(Debug, Clone)]
pub struct NativeConfig {
    pub iface: String,
    pub bitrate: CanBitrate,
}

impl NativeConfig {
    pub fn new(iface: String, bitrate: CanBitrate) -> (res: Self)
        ensures
            res.iface == iface,
            res.bitrate == bitrate,
    {
        Self { iface, bitrate }
    }
}

/// A serial adapter attached through `slcand`.
#[derive(Debug, Clone)]
pub struct SlcanConfig {
    pub tty: String,
    pub iface: String,
    pub speed: SlcanSpeed,
    pub uart_baud: u32,
}

impl SlcanConfig {
    pub fn new(tty: String, iface: String, speed: SlcanSpeed, uart_baud: u32) -> (res: Self)
        ensures
            res.tty == tty,
            res.iface == iface,
            res.speed == speed,
            res.uart_baud == uart_baud,
    {
        Self { tty, iface, speed, uart_baud }
    }
}

/// A virtual (`vcan`) interface.
#[derive(Debug, Clone)]
pub struct VirtualConfig {
    pub iface: String,
}

impl VirtualConfig {
    pub fn new(iface: String) -> (res: Self)
        ensures
            res.iface == iface,
    {
        Self { iface }
    }
}

/// The configuration of one interface, of any kind.
#[derive(Debug, Clone)]
pub enum CanConfig {
    Native(NativeConfig),
    Slcan(SlcanConfig),
    Virtual(VirtualConfig),
}

/// The serial device that an SLCAN configuration starts with.
pub open spec fn default_tty() -> Seq<char> {
    "/dev/ttyUSB0"@
}

impl CanConfig {
    /// The interface name, whatever the kind.
    pub open spec fn spec_iface(&self) -> Seq<char> {
        match self {
            CanConfig::Native(cfg) => cfg.iface@,
            CanConfig::Slcan(cfg) => cfg.iface@,
            CanConfig::Virtual(cfg) => cfg.iface@,
        }
    }

    /// The kind of connection.
    pub open spec fn mode(&self) -> CanMode {
        match self {
            CanConfig::Native(_) => CanMode::Native,
            CanConfig::Slcan(_) => CanMode::Slcan,
            CanConfig::Virtual(_) => CanMode::Virtual,
        }
    }

    /// Whether `other` is this configuration with the interface name
    /// replaced by `iface`.
    pub open spec fn renamed(&self, other: &CanConfig, iface: Seq<char>) -> bool {
        match (self, other) {
            (CanConfig::Native(a), CanConfig::Native(b)) => b.iface@ == iface && b.bitrate
                == a.bitrate,
            (CanConfig::Slcan(a), CanConfig::Slcan(b)) => b.iface@ == iface && b.tty == a.tty
                && b.speed == a.speed && b.uart_baud == a.uart_baud,
            (CanConfig::Virtual(a), CanConfig::Virtual(b)) => b.iface@ == iface,
            _ => false,
        }
    }

    /// Builds a configuration of the given kind. A native interface needs a
    /// bitrate, an SLCAN interface a speed and a UART baud rate; an SLCAN
    /// interface starts on `/dev/ttyUSB0`.
    pub fn new(
        mode: CanMode,
        iface: String,
        bitrate: Option<CanBitrate>,
        slcan_speed: Option<SlcanSpeed>,
        uart_baud: Option<u32>,
    ) -> (res: Self)
        requires
            mode == CanMode::Native ==> bitrate is Some,
            mode == CanMode::Slcan ==> slcan_speed is Some && uart_baud is Some,
        ensures
            res.mode() == mode,
            res.spec_iface() == iface@,
            res matches CanConfig::Native(cfg) ==> cfg.iface == iface && Some(cfg.bitrate)
                == bitrate,
            res matches CanConfig::Slcan(cfg) ==> cfg.iface == iface && cfg.tty@ == default_tty()
                && Some(cfg.speed) == slcan_speed && Some(cfg.uart_baud) == uart_baud,
            res matches CanConfig::Virtual(cfg) ==> cfg.iface == iface,
    {
        match mode {
            CanMode::Native => CanConfig::Native(
                NativeConfig { iface, bitrate: bitrate.unwrap() },
            ),
            CanMode::Slcan => CanConfig::Slcan(
                SlcanConfig {
                    tty: String::from_str("/dev/ttyUSB0"),
                    iface,
                    speed: slcan_speed.unwrap(),
                    uart_baud: uart_baud.unwrap(),
                },
            ),
            CanMode::Virtual => CanConfig::Virtual(VirtualConfig { iface }),
        }
    }

    /// An equal copy of this configuration.
    pub fn duplicate(&self) -> (res: Self)
        ensures
            res == *self,
    {
        match self {
            CanConfig::Native(cfg) => CanConfig::Native(
                NativeConfig { iface: cfg.iface.clone(), bitrate: cfg.bitrate },
            ),
            CanConfig::Slcan(cfg) => CanConfig::Slcan(
                SlcanConfig {
                    tty: cfg.tty.clone(),
                    iface: cfg.iface.clone(),
                    speed: cfg.speed,
                    uart_baud: cfg.uart_baud,
                },
            ),
            CanConfig::Virtual(cfg) => CanConfig::Virtual(VirtualConfig { iface: cfg.iface.clone() }),
        }
    }

    /// The interface name.
    pub fn iface(&self) -> (res: &str)
        ensures
            res@ == self.spec_iface(),
    {
        match self {
            CanConfig::Native(cfg) => cfg.iface.as_str(),
            CanConfig::Slcan(cfg) => cfg.iface.as_str(),
            CanConfig::Virtual(cfg) => cfg.iface.as_str(),
        }
    }

    /// Replaces the interface name, keeping the kind and every other
    /// setting.
    pub fn set_iface(&mut self, new_iface: String)
        ensures
            old(self).renamed(&*final(self), new_iface@),
            final(self).spec_iface() == new_iface@,
            final(self).mode() == old(self).mode(),
    {
        match self {
            CanConfig::Native(cfg) => cfg.iface = new_iface,
            CanConfig::Slcan(cfg) => cfg.iface = new_iface,
            CanConfig::Virtual(cfg) => cfg.iface = new_iface,
        }
    }
}

/// What to do about an interface name that is already taken.
#[derive(Debug, Clone, Copy, PartialEq, Eq, Structural)]
pub enum ExistingIfaceAction {
    Replace,
    Rename,
    Skip,
    Cancel,
}

/// Whether set-up goes on or keeps the interface that exists.
#[derive(Debug, Clone, Copy, PartialEq, Eq, Structural)]
pub enum InterfaceResolution {
    Proceed,
    SkipSetup,
}

/// Renaming keeps the kind of connection and every setting but the name,
/// and the name read back is the one written.
pub proof fn law_rename_reads_back(before: CanConfig, after: CanConfig, iface: Seq<char>)
    requires
        before.renamed(&after, iface),
    ensures
        after.spec_iface() == iface,
        after.mode() == before.mode(),
{
}

/// Renaming twice is renaming once, with the second name.
pub proof fn law_rename_twice(a: CanConfig, b: CanConfig, c: CanConfig, first: Seq<char>, second: Seq<char>)
    requires
        a.renamed(&b, first),
        b.renamed(&c, second),
    ensures
        a.renamed(&c, second),
{
}

/// The bitrate that the `slcand` speed flag `s<k>` selects: the codes 0 to
/// 8 of the SLCAN protocol stand for 10, 20, 50, 100, 125, 250, 500 and 800
/// kbit/s and 1 Mbit/s.
pub open spec fn slcand_flag_bitrate(flag: Seq<char>) -> Option<u32> {
    if flag.len() != 2 || flag[0] != 's' {
        None
    } else if flag[1] == '0' {
        Some(10_000)
    } else if flag[1] == '1' {
        Some(20_000)
    } else if flag[1] == '2' {
        Some(50_000)
    } else if flag[1] == '3' {
        Some(100_000)
    } else if flag[1] == '4' {
        Some(125_000)
    } else if flag[1] == '5' {
        Some(250_000)
    } else if flag[1] == '6' {
        Some(500_000)
    } else if flag[1] == '7' {
        Some(800_000)
    } else if flag[1] == '8' {
        Some(1_000_000)
    } else {
        None
    }
}

/// Every SLCAN speed offered pairs its bitrate with the `slcand` flag that
/// selects that bitrate, every flag is offered, and the list runs from the
/// fastest to the slowest.
pub proof fn law_slcan_speeds_match_their_flags()
    ensures
        spec_slcan_speeds().len() == 9,
        forall|i: int|
            0 <= i < spec_slcan_speeds().len() ==> slcand_flag_bitrate(
                #[trigger] spec_slcan_speeds()[i].1,
            ) == Some(spec_slcan_speeds()[i].0),
        forall|i: int, j: int|
            0 <= i < j < spec_slcan_speeds().len() ==> #[trigger] spec_slcan_speeds()[i].0
                > #[trigger] spec_slcan_speeds()[j].0,
{
    reveal_strlit("s8");
    reveal_strlit("s7");
    reveal_strlit("s6");
    reveal_strlit("s5");
    reveal_strlit("s4");
    reveal_strlit("s3");
    reveal_strlit("s2");
    reveal_strlit("s1");
    reveal_strlit("s0");
    let sp = spec_slcan_speeds();
    assert forall|i: int| 0 <= i < sp.len() implies slcand_flag_bitrate(#[trigger] sp[i].1)
        == Some(sp[i].0) by {
        assert(sp[i].1.len() == 2);
    }
}

} // verus!
