//! The commands that remove, bring up and set up interfaces, and the
//! decisions about an interface name that is already taken.
use vstd::prelude::*;

use crate::setup::models::{
    bitrate_value, CanConfig, ExistingIfaceAction, InterfaceResolution,
};
use crate::text::{dec_text, push_dec, push_str, views_of};

verus! {

/// A command line to run, and whether its failure stops the whole run
/// (otherwise the failure is ignored).
#[derive(Debug, Clone)]
pub struct PlannedCommand {
    pub argv: Vec<String>,
    pub required: bool,
}

impl View for PlannedCommand {
    type V = (Seq<Seq<char>>, bool);

    open spec fn view(&self) -> (Seq<Seq<char>>, bool) {
        (views_of(self.argv@), self.required)
    }
}

/// The views of a list of commands.
pub open spec fn command_views(v: Seq<PlannedCommand>) -> Seq<(Seq<Seq<char>>, bool)> {
    v.map_values(|c: PlannedCommand| c@)
}

impl PlannedCommand {
    /// Whether the run stops after this command ran with the given result.
    pub fn stops_on(&self, succeeded: bool) -> (res: bool)
        ensures
            res == (self.required && !succeeded),
    {
        self.required && !succeeded
    }
}

/// `sudo ip link set <iface> down`, whose failure is ignored, then for an
/// SLCAN interface `sudo slcand -k <iface>` (failure ignored), and for a
/// virtual one `sudo ip link delete <iface>` (failure stops).
pub open spec fn spec_remove_commands(config: CanConfig) -> Seq<(Seq<Seq<char>>, bool)> {
    let iface = config.spec_iface();
    let down = (seq!["sudo"@, "ip"@, "link"@, "set"@, iface, "down"@], false);
    match config {
        CanConfig::Native(_) => seq![down],
        CanConfig::Slcan(_) => seq![down, (seq!["sudo"@, "slcand"@, "-k"@, iface], false)],
        CanConfig::Virtual(_) => seq![down, (seq!["sudo"@, "ip"@, "link"@, "delete"@, iface], true)],
    }
}

/// `sudo ip link set up <iface>`: an interface that exists is only brought up.
pub open spec fn spec_bring_up_commands(config: CanConfig) -> Seq<(Seq<Seq<char>>, bool)> {
    seq![(seq!["sudo"@, "ip"@, "link"@, "set"@, "up"@, config.spec_iface()], true)]
}

/// The commands that set up `config`; each failure stops.
pub open spec fn spec_setup_commands(config: CanConfig) -> Seq<(Seq<Seq<char>>, bool)> {
    match config {
        CanConfig::Native(cfg) => seq![
            (
                seq![
                    "sudo"@,
                    "ip"@,
                    "link"@,
                    "set"@,
                    cfg.iface@,
                    "up"@,
                    "type"@,
                    "can"@,
                    "bitrate"@,
                    dec_text(bitrate_value(cfg.bitrate) as nat),
                ],
                true,
            ),
        ],
        CanConfig::Slcan(cfg) => seq![
            (
                seq![
                    "sudo"@,
                    "slcand"@,
                    "-c"@,
                    "-o"@,
                    "-f"@,
                    "-"@ + cfg.speed.flag@,
                    "-t"@,
                    "hw"@,
                    "-S"@,
                    dec_text(cfg.uart_baud as nat),
                    cfg.tty@,
                    cfg.iface@,
                ],
                true,
            ),
            (seq!["sudo"@, "ip"@, "link"@, "set"@, "up"@, cfg.iface@], true),
        ],
        CanConfig::Virtual(cfg) => seq![
            (seq!["sudo"@, "ip"@, "link"@, "add"@, "dev"@, cfg.iface@, "type"@, "vcan"@], true),
            (seq!["sudo"@, "ip"@, "link"@, "set"@, "up"@, cfg.iface@], true),
            (seq!["ip"@, "link"@, "show"@, cfg.iface@], true),
        ],
    }
}

fn command(parts: &[&str], required: bool) -> (res: PlannedCommand)
    ensures
        res.required == required,
        res@.0 == parts@.map_values(|s: &str| s@),
{
    let mut argv: Vec<String> = Vec::new();
    let mut i: usize = 0;
    while i < parts.len()
        invariant
            i <= parts.len(),
            argv@.len() == i,
            forall|j: int| 0 <= j < i ==> #[trigger] argv@[j]@ == parts@[j]@,
        decreases parts.len() - i,
    {
        argv.push(String::from_str(parts[i]));
        i = i + 1;
    }
    let res = PlannedCommand { argv, required };
    assert(views_of(res.argv@) =~= parts@.map_values(|s: &str| s@));
    res
}

/// The commands that take an existing interface away before it is set up
/// again: bring it down, then stop `slcand` or delete the virtual interface.
pub fn remove_existing_interface(config: &CanConfig) -> (res: Vec<PlannedCommand>)
    ensures
        command_views(res@) == spec_remove_commands(*config),
{
    let iface = config.iface();
    let mut res = Vec::new();
    res.push(command(&["sudo", "ip", "link", "set", iface, "down"], false));
    match config {
        CanConfig::Native(_) => {},
        CanConfig::Slcan(_) => {
            res.push(command(&["sudo", "slcand", "-k", iface], false));
        },
        CanConfig::Virtual(_) => {
            res.push(command(&["sudo", "ip", "link", "delete", iface], true));
        },
    }
    proof {
        let sp = spec_remove_commands(*config);
        assert forall|k: int| 0 <= k < res@.len() implies #[trigger] res@[k]@ == sp[k] by {
            assert(res@[k]@.0 =~= sp[k].0);
        }
        assert(command_views(res@) =~= sp);
    }
    res
}

/// The command that reuses an interface that exists: bring it up.
pub fn execute_existing_set_up(config: &CanConfig) -> (res: Vec<PlannedCommand>)
    ensures
        command_views(res@) == spec_bring_up_commands(*config),
{
    let iface = match config {
        CanConfig::Native(cfg) => cfg.iface.as_str(),
        CanConfig::Slcan(cfg) => cfg.iface.as_str(),
        CanConfig::Virtual(cfg) => cfg.iface.as_str(),
    };
    let mut res = Vec::new();
    res.push(command(&["sudo", "ip", "link", "set", "up", iface], true));
    proof {
        let sp = spec_bring_up_commands(*config);
        assert forall|k: int| 0 <= k < res@.len() implies #[trigger] res@[k]@ == sp[k] by {
            assert(res@[k]@.0 =~= sp[k].0);
        }
        assert(command_views(res@) =~= sp);
    }
    res
}

/// The commands that set up `config`.
pub fn execute_config(config: &CanConfig) -> (res: Vec<PlannedCommand>)
    ensures
        command_views(res@) == spec_setup_commands(*config),
{
    let mut res = Vec::new();
    match config {
        CanConfig::Native(cfg) => {
            let mut bitrate = String::new();
            push_dec(&mut bitrate, cfg.bitrate.bitrate() as u64);
            res.push(
                command(
                    &[
                        "sudo",
                        "ip",
                        "link",
                        "set",
                        cfg.iface.as_str(),
                        "up",
                        "type",
                        "can",
                        "bitrate",
                        bitrate.as_str(),
                    ],
                    true,
                ),
            );
        },
        CanConfig::Slcan(cfg) => {
            let mut speed_arg = String::from_str("-");
            push_str(&mut speed_arg, cfg.speed.flag);
            let mut baud_arg = String::new();
            push_dec(&mut baud_arg, cfg.uart_baud as u64);
            res.push(
                command(
                    &[
                        "sudo",
                        "slcand",
                        "-c",
                        "-o",
                        "-f",
                        speed_arg.as_str(),
                        "-t",
                        "hw",
                        "-S",
                        baud_arg.as_str(),
                        cfg.tty.as_str(),
                        cfg.iface.as_str(),
                    ],
                    true,
                ),
            );
            res.push(command(&["sudo", "ip", "link", "set", "up", cfg.iface.as_str()], true));
        },
        CanConfig::Virtual(cfg) => {
            res.push(
                command(
                    &["sudo", "ip", "link", "add", "dev", cfg.iface.as_str(), "type", "vcan"],
                    true,
                ),
            );
            res.push(command(&["sudo", "ip", "link", "set", "up", cfg.iface.as_str()], true));
            res.push(command(&["ip", "link", "show", cfg.iface.as_str()], true));
        },
    }
    proof {
        let sp = spec_setup_commands(*config);
        assert forall|k: int| 0 <= k < res@.len() implies #[trigger] res@[k]@ == sp[k] by {
            assert(res@[k]@.0 =~= sp[k].0);
        }
        assert(command_views(res@) =~= sp);
    }
    res
}

/// The outcome of looking for an interface before setting it up: keep and
/// bring up the one that exists, or go on with set-up.
pub struct ExistingCheck {
    pub resolution: InterfaceResolution,
    pub commands: Vec<PlannedCommand>,
}

/// Decides, from whether `config`'s interface already exists, whether
/// set-up goes on; an existing interface is kept and brought up.
pub fn check_interface_already_available(config: &CanConfig, exists: bool) -> (res: ExistingCheck)
    ensures
        exists ==> res.resolution == InterfaceResolution::SkipSetup && command_views(res.commands@)
            == spec_bring_up_commands(*config),
        !exists ==> res.resolution == InterfaceResolution::Proceed && res.commands@.len() == 0,
{
    if exists {
        ExistingCheck {
            resolution: InterfaceResolution::SkipSetup,
            commands: execute_existing_set_up(config),
        }
    } else {
        ExistingCheck { resolution: InterfaceResolution::Proceed, commands: Vec::new() }
    }
}

/// What happened since the last step of choosing a free interface name.
pub enum NameEvent {
    /// The choice begins.
    Start,
    /// Whether the configured interface exists.
    Exists(bool),
    /// What the user chose to do about the existing interface.
    Chosen(ExistingIfaceAction),
    /// The new name the user typed.
    NewName(String),
}

/// What to do next while choosing a free interface name.
pub enum NameStep {
    /// Find out whether the configured interface exists.
    CheckExists,
    /// Ask what to do about the existing interface.
    AskAction,
    /// Ask for another interface name.
    AskNewName,
    /// Run the commands, then go on as the resolution says.
    Finish(InterfaceResolution, Vec<PlannedCommand>),
    /// The user cancelled the operation.
    Cancelled,
}

/// One step of making sure the configured interface name is free: a free
/// name proceeds; a taken one is replaced (removed first), renamed (and
/// checked again), kept (brought up, set-up skipped), or the operation is
/// cancelled.
pub fn ensure_interface_name_is_available(config: &mut CanConfig, event: NameEvent) -> (res: NameStep)
    ensures
        match event {
            NameEvent::Start => res is CheckExists && *final(config) == *old(config),
            NameEvent::Exists(false) => *final(config) == *old(config) && (res matches NameStep::Finish(
                r,
                cmds,
            ) && r == InterfaceResolution::Proceed && cmds@.len() == 0),
            NameEvent::Exists(true) => res is AskAction && *final(config) == *old(config),
            NameEvent::Chosen(ExistingIfaceAction::Replace) => *final(config) == *old(config) && (
            res matches NameStep::Finish(r, cmds) && r == InterfaceResolution::Proceed
                && command_views(cmds@) == spec_remove_commands(*old(config))),
            NameEvent::Chosen(ExistingIfaceAction::Rename) => res is AskNewName && *final(config)
                == *old(config),
            NameEvent::Chosen(ExistingIfaceAction::Skip) => *final(config) == *old(config) && (
            res matches NameStep::Finish(r, cmds) && r == InterfaceResolution::SkipSetup
                && command_views(cmds@) == spec_bring_up_commands(*old(config))),
            NameEvent::Chosen(ExistingIfaceAction::Cancel) => res is Cancelled && *final(config)
                == *old(config),
            NameEvent::NewName(name) => res is CheckExists && old(config).renamed(
                &*final(config),
                name@,
            ),
        },
{
    match event {
        NameEvent::Start => NameStep::CheckExists,
        NameEvent::Exists(false) => NameStep::Finish(InterfaceResolution::Proceed, Vec::new()),
        NameEvent::Exists(true) => NameStep::AskAction,
        NameEvent::Chosen(ExistingIfaceAction::Replace) => {
            let cmds = remove_existing_interface(config);
            NameStep::Finish(InterfaceResolution::Proceed, cmds)
        },
        NameEvent::Chosen(ExistingIfaceAction::Rename) => NameStep::AskNewName,
        NameEvent::Chosen(ExistingIfaceAction::Skip) => {
            let cmds = execute_existing_set_up(config);
            NameStep::Finish(InterfaceResolution::SkipSetup, cmds)
        },
        NameEvent::Chosen(ExistingIfaceAction::Cancel) => NameStep::Cancelled,
        NameEvent::NewName(name) => {
            config.set_iface(name);
            NameStep::CheckExists
        },
    }
}

/// Bringing up an interface that exists is the one command
/// `sudo ip link set up <iface>`, whose failure stops, and it never takes
/// the interface down or deletes it: no word but the interface name is
/// `down` or `delete`.
pub proof fn law_bring_up_never_removes(config: CanConfig)
    ensures
        spec_bring_up_commands(config) == seq![
            (seq!["sudo"@, "ip"@, "link"@, "set"@, "up"@, config.spec_iface()], true),
        ],
        forall|i: int, j: int|
            0 <= i < spec_bring_up_commands(config).len() && 0 <= j < spec_bring_up_commands(
                config,
            )[i].0.len() - 1 ==> #[trigger] spec_bring_up_commands(config)[i].0[j] != "down"@
                && spec_bring_up_commands(config)[i].0[j] != "delete"@,
{
    reveal_strlit("down");
    reveal_strlit("delete");
    reveal_strlit("sudo");
    reveal_strlit("ip");
    reveal_strlit("link");
    reveal_strlit("set");
    reveal_strlit("up");
    let w = seq!["sudo"@, "ip"@, "link"@, "set"@, "up"@, config.spec_iface()];
    assert forall|j: int| 0 <= j < w.len() - 1 implies w[j] != "down"@ && w[j] != "delete"@ by {
        assert(w[j][0] != 'd');
        assert(("down"@)[0] == 'd' && ("delete"@)[0] == 'd');
    }
}

} // verus!
