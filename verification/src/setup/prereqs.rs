//! The system tools that set-up relies on, and how missing ones are
//! installed.
use vstd::prelude::*;

use crate::setup::exec::{command_views, spec_setup_commands, PlannedCommand};
use crate::setup::models::{CanConfig, NativeConfig, SlcanConfig};
use crate::text::{push_str, same_text, views_of};

verus! {

/// A tool that set-up runs.
#[derive(Debug, Clone, Copy, PartialEq, Eq, Structural)]
pub enum Prerequisite {
    Ip,
    Slcand,
    Modprobe,
}

/// What to do when tools are missing at start-up.
#[derive(Debug, Clone, Copy, PartialEq, Eq, Structural)]
pub enum StartupAction {
    InstallPrerequisites,
    ContinueAnyway,
    Exit,
}

/// Why installation cannot go ahead.
#[derive(Debug, Clone, Copy, PartialEq, Eq, Structural)]
pub enum PrereqError {
    /// Installation needs `apt`.
    NoApt,
}

impl PrereqError {
    pub fn message(&self) -> (res: &'static str)
        ensures
            res@ == "automatic installation is currently only supported on apt-based systems"@,
    {
        "automatic installation is currently only supported on apt-based systems"
    }
}

/// The executable that a prerequisite provides.
pub open spec fn spec_binary_name(p: Prerequisite) -> Seq<char> {
    match p {
        Prerequisite::Ip => "ip"@,
        Prerequisite::Slcand => "slcand"@,
        Prerequisite::Modprobe => "modprobe"@,
    }
}

/// The package and tool, as shown to the user.
pub open spec fn spec_description(p: Prerequisite) -> Seq<char> {
    match p {
        Prerequisite::Ip => "iproute2 / ip"@,
        Prerequisite::Slcand => "can-utils / slcand"@,
        Prerequisite::Modprobe => "kmod / modprobe"@,
    }
}

impl Prerequisite {
    pub fn binary_name(&self) -> (res: &'static str)
        ensures
            res@ == spec_binary_name(*self),
    {
        match self {
            Prerequisite::Ip => "ip",
            Prerequisite::Slcand => "slcand",
            Prerequisite::Modprobe => "modprobe",
        }
    }

    pub fn description(&self) -> (res: &'static str)
        ensures
            res@ == spec_description(*self),
    {
        match self {
            Prerequisite::Ip => "iproute2 / ip",
            Prerequisite::Slcand => "can-utils / slcand",
            Prerequisite::Modprobe => "kmod / modprobe",
        }
    }

    /// The text shown for this prerequisite: its description.
    pub fn text(&self) -> (res: &'static str)
        ensures
            res@ == spec_description(*self),
    {
        self.description()
    }
}

impl StartupAction {
    /// The text shown for this action in menus.
    pub fn text(&self) -> (res: &'static str)
        ensures
            *self == StartupAction::InstallPrerequisites ==> res@ == "Install prerequisites"@,
            *self == StartupAction::ContinueAnyway ==> res@ == "Continue anyway"@,
            *self == StartupAction::Exit ==> res@ == "Exit"@,
    {
        match self {
            StartupAction::InstallPrerequisites => "Install prerequisites",
            StartupAction::ContinueAnyway => "Continue anyway",
            StartupAction::Exit => "Exit",
        }
    }
}

/// Every prerequisite, in the order they are checked.
pub open spec fn all_prerequisites() -> Seq<Prerequisite> {
    seq![Prerequisite::Ip, Prerequisite::Slcand, Prerequisite::Modprobe]
}

/// Whether `name` is among the commands found.
pub open spec fn found_command(found: Seq<String>, name: Seq<char>) -> bool {
    views_of(found).contains(name)
}

/// The prerequisites whose executable is not among the commands found, in
/// checking order.
pub open spec fn spec_missing(found: Seq<String>) -> Seq<Prerequisite> {
    all_prerequisites().filter(|p: Prerequisite| !found_command(found, spec_binary_name(p)))
}

fn is_found(found: &Vec<String>, name: &str) -> (res: bool)
    ensures
        res == found_command(found@, name@),
{
    let mut i: usize = 0;
    while i < found.len()
        invariant
            i <= found.len(),
            forall|j: int| 0 <= j < i ==> #[trigger] found@[j]@ != name@,
        decreases found.len() - i,
    {
        if same_text(found[i].as_str(), name) {
            assert(views_of(found@)[i as int] == name@);
            return true;
        }
        i = i + 1;
    }
    proof {
        if views_of(found@).contains(name@) {
            let k = choose|k: int| 0 <= k < views_of(found@).len() && views_of(found@)[k] == name@;
            assert(found@[k]@ == name@);
        }
    }
    false
}

/// The prerequisites not among `found_commands`, the executables that were
/// found on the search path.
pub fn missing_prerequisites(found_commands: &Vec<String>) -> (res: Vec<Prerequisite>)
    ensures
        res@ == spec_missing(found_commands@),
{
    let mut res = Vec::new();
    let ip = !is_found(found_commands, "ip");
    let slcand = !is_found(found_commands, "slcand");
    let modprobe = !is_found(found_commands, "modprobe");
    if ip {
        res.push(Prerequisite::Ip);
    }
    if slcand {
        res.push(Prerequisite::Slcand);
    }
    if modprobe {
        res.push(Prerequisite::Modprobe);
    }
    proof {
        let f = |p: Prerequisite| !found_command(found_commands@, spec_binary_name(p));
        let all = all_prerequisites();
        reveal_with_fuel(Seq::filter, 4);
        assert(all.drop_last().drop_last().drop_last() =~= Seq::<Prerequisite>::empty());
        assert(all.drop_last().drop_last() =~= seq![Prerequisite::Ip]);
        assert(all.drop_last() =~= seq![Prerequisite::Ip, Prerequisite::Slcand]);
        assert(res@ =~= all.filter(f));
    }
    res
}

/// Whether `apt` is among the commands found.
pub fn has_apt(found_commands: &Vec<String>) -> (res: bool)
    ensures
        res == found_command(found_commands@, "apt"@),
{
    is_found(found_commands, "apt")
}

/// The packages that provide the missing prerequisites, sorted, each once.
pub open spec fn spec_packages(missing: Seq<Prerequisite>) -> Seq<Seq<char>> {
    let a: Seq<Seq<char>> = if missing.contains(Prerequisite::Slcand) {
        seq!["can-utils"@]
    } else {
        Seq::empty()
    };
    let b: Seq<Seq<char>> = if missing.contains(Prerequisite::Ip) {
        seq!["iproute2"@]
    } else {
        Seq::empty()
    };
    let c: Seq<Seq<char>> = if missing.contains(Prerequisite::Modprobe) {
        seq!["kmod"@]
    } else {
        Seq::empty()
    };
    a + b + c
}

fn contains_prerequisite(missing: &Vec<Prerequisite>, p: Prerequisite) -> (res: bool)
    ensures
        res == missing@.contains(p),
{
    let mut i: usize = 0;
    while i < missing.len()
        invariant
            i <= missing.len(),
            forall|j: int| 0 <= j < i ==> #[trigger] missing@[j] != p,
        decreases missing.len() - i,
    {
        if missing[i] == p {
            return true;
        }
        i = i + 1;
    }
    false
}

/// The packages to install for the missing prerequisites, in sorted order
/// without repeats.
pub fn packages_for_missing_prerequisites(missing: &Vec<Prerequisite>) -> (res: Vec<&'static str>)
    ensures
        res@.map_values(|s: &'static str| s@) == spec_packages(missing@),
{
    let mut res: Vec<&'static str> = Vec::new();
    if contains_prerequisite(missing, Prerequisite::Slcand) {
        res.push("can-utils");
    }
    if contains_prerequisite(missing, Prerequisite::Ip) {
        res.push("iproute2");
    }
    if contains_prerequisite(missing, Prerequisite::Modprobe) {
        res.push("kmod");
    }
    assert(res@.map_values(|s: &'static str| s@) =~= spec_packages(missing@));
    res
}

/// How missing prerequisites get installed.
#[derive(Debug)]
pub struct InstallPlan {
    pub packages: Vec<&'static str>,
    pub commands: Vec<PlannedCommand>,
}

/// `sudo apt update`, then `sudo apt install -y` with the packages; each
/// failure stops.
pub open spec fn spec_install_commands(packages: Seq<Seq<char>>) -> Seq<(Seq<Seq<char>>, bool)> {
    seq![
        (seq!["sudo"@, "apt"@, "update"@], true),
        (seq!["sudo"@, "apt"@, "install"@, "-y"@] + packages, true),
    ]
}

/// Decides how to install the missing prerequisites: nothing to do when
/// none is missing, refused without `apt`, else the packages and the
/// commands that install them.
pub fn installation_plan(missing: &Vec<Prerequisite>, apt_available: bool) -> (res: Result<
    Option<InstallPlan>,
    PrereqError,
>)
    ensures
        missing@.len() == 0 ==> res matches Ok(None),
        missing@.len() > 0 && !apt_available ==> res == Err::<Option<InstallPlan>, PrereqError>(
            PrereqError::NoApt,
        ),
        missing@.len() > 0 && apt_available ==> (res matches Ok(Some(plan)) && plan.packages@.map_values(
            |s: &'static str| s@,
        ) == spec_packages(missing@) && command_views(plan.commands@) == spec_install_commands(
            spec_packages(missing@),
        )),
{
    if missing.len() == 0 {
        return Ok(None);
    }
    if !apt_available {
        return Err(PrereqError::NoApt);
    }
    let packages = packages_for_missing_prerequisites(missing);
    let mut update: Vec<String> = Vec::new();
    update.push(String::from_str("sudo"));
    update.push(String::from_str("apt"));
    update.push(String::from_str("update"));
    let mut install: Vec<String> = Vec::new();
    install.push(String::from_str("sudo"));
    install.push(String::from_str("apt"));
    install.push(String::from_str("install"));
    install.push(String::from_str("-y"));
    let ghost head = views_of(install@);
    let mut i: usize = 0;
    while i < packages.len()
        invariant
            i <= packages.len(),
            head.len() == 4,
            install@.len() == 4 + i,
            views_of(install@) == head + packages@.map_values(|s: &'static str| s@).take(i as int),
        decreases packages.len() - i,
    {
        let ghost before = install@;
        let item = String::from_str(packages[i]);
        install.push(item);
        proof {
            assert(install@ == before.push(item));
            assert(views_of(install@) =~= views_of(before).push(packages@[i as int]@));
        }
        i = i + 1;
        assert(views_of(install@) =~= head + packages@.map_values(|s: &'static str| s@).take(i as int));
    }
    assert(packages@.map_values(|s: &'static str| s@).take(packages.len() as int) =~= packages@.map_values(
        |s: &'static str| s@,
    ));
    let mut commands = Vec::new();
    commands.push(PlannedCommand { argv: update, required: true });
    commands.push(PlannedCommand { argv: install, required: true });
    proof {
        let sp = spec_install_commands(spec_packages(missing@));
        assert(commands@[0]@.0 =~= sp[0].0);
        assert(commands@[1]@.0 =~= sp[1].0);
        assert(command_views(commands@) =~= sp);
    }
    Ok(Some(InstallPlan { packages, commands }))
}

/// The choices offered when prerequisites are missing: installing only
/// where `apt` is available, then continuing, then exiting.
pub fn startup_actions(apt_available: bool) -> (res: Vec<StartupAction>)
    ensures
        apt_available ==> res@ == seq![
            StartupAction::InstallPrerequisites,
            StartupAction::ContinueAnyway,
            StartupAction::Exit,
        ],
        !apt_available ==> res@ == seq![StartupAction::ContinueAnyway, StartupAction::Exit],
{
    let mut actions = Vec::new();
    if apt_available {
        actions.push(StartupAction::InstallPrerequisites);
    }
    actions.push(StartupAction::ContinueAnyway);
    actions.push(StartupAction::Exit);
    assert(apt_available ==> actions@ =~= seq![
        StartupAction::InstallPrerequisites,
        StartupAction::ContinueAnyway,
        StartupAction::Exit,
    ]);
    assert(!apt_available ==> actions@ =~= seq![StartupAction::ContinueAnyway, StartupAction::Exit]);
    actions
}

/// The descriptions of `ps` separated by `, `.
pub open spec fn spec_join_descriptions(ps: Seq<Prerequisite>) -> Seq<char>
    decreases ps.len(),
{
    if ps.len() == 0 {
        Seq::empty()
    } else if ps.len() == 1 {
        spec_description(ps[0])
    } else {
        spec_join_descriptions(ps.drop_last()) + ", "@ + spec_description(ps.last())
    }
}

/// The descriptions of the missing prerequisites separated by `, `.
pub fn join_prerequisites(missing: &Vec<Prerequisite>) -> (res: String)
    ensures
        res@ == spec_join_descriptions(missing@),
{
    let mut out = String::new();
    let mut i: usize = 0;
    while i < missing.len()
        invariant
            i <= missing.len(),
            out@ == spec_join_descriptions(missing@.take(i as int)),
        decreases missing.len() - i,
    {
        proof {
            assert(missing@.take(i + 1).drop_last() =~= missing@.take(i as int));
        }
        if i > 0 {
            out.append(", ");
        }
        push_str(&mut out, missing[i].description());
        i = i + 1;
        proof {
            if i == 1 {
                assert(out@ =~= spec_join_descriptions(missing@.take(i as int)));
            }
        }
    }
    assert(missing@.take(missing.len() as int) =~= missing@);
    out
}

/// The report of missing prerequisites, one line each: a heading, an
/// indented item per prerequisite, and a blank line; nothing when none is
/// missing.
pub fn missing_prerequisites_report(missing: &Vec<Prerequisite>) -> (res: Vec<String>)
    ensures
        missing@.len() == 0 ==> res@.len() == 0,
        missing@.len() > 0 ==> res@.len() == missing@.len() + 2 && res@[0]@
            == "Missing prerequisites:"@ && res@.last()@ == Seq::<char>::empty() && forall|i: int|
            0 <= i < missing@.len() ==> #[trigger] res@[i + 1]@ == "  - "@ + spec_description(
                missing@[i],
            ),
{
    let mut lines: Vec<String> = Vec::new();
    if missing.len() == 0 {
        return lines;
    }
    lines.push(String::from_str("Missing prerequisites:"));
    let mut i: usize = 0;
    while i < missing.len()
        invariant
            i <= missing.len(),
            lines@.len() == i + 1,
            lines@[0]@ == "Missing prerequisites:"@,
            forall|j: int|
                0 <= j < i ==> #[trigger] lines@[j + 1]@ == "  - "@ + spec_description(missing@[j]),
        decreases missing.len() - i,
    {
        let mut line = String::from_str("  - ");
        push_str(&mut line, missing[i].description());
        lines.push(line);
        i = i + 1;
    }
    lines.push(String::new());
    lines
}

/// A prerequisite is the program that the set-up commands run: `ip` for a
/// native interface, `slcand` for an SLCAN one, and `modprobe`. It is
/// missing exactly when that program is not among the commands found, so
/// nothing is missing when all of them are found.
pub proof fn law_missing_are_the_programs_not_found(
    found: Seq<String>,
    native: NativeConfig,
    slcan: SlcanConfig,
)
    ensures
        ({
            let ip = spec_setup_commands(CanConfig::Native(native))[0].0[1];
            let slcand = spec_setup_commands(CanConfig::Slcan(slcan))[0].0[1];
            &&& spec_binary_name(Prerequisite::Ip) == ip
            &&& spec_binary_name(Prerequisite::Slcand) == slcand
            &&& spec_missing(found).contains(Prerequisite::Ip) <==> !found_command(found, ip)
            &&& spec_missing(found).contains(Prerequisite::Slcand) <==> !found_command(
                found,
                slcand,
            )
            &&& spec_missing(found).contains(Prerequisite::Modprobe) <==> !found_command(
                found,
                "modprobe"@,
            )
            &&& found_command(found, ip) && found_command(found, slcand) && found_command(
                found,
                "modprobe"@,
            ) ==> spec_missing(found).len() == 0
        }),
{
    let f = |p: Prerequisite| !found_command(found, spec_binary_name(p));
    let all = all_prerequisites();
    reveal_with_fuel(Seq::filter, 4);
    assert(all.drop_last().drop_last().drop_last() =~= Seq::<Prerequisite>::empty());
    assert(all.drop_last().drop_last() =~= seq![Prerequisite::Ip]);
    assert(all.drop_last() =~= seq![Prerequisite::Ip, Prerequisite::Slcand]);
    let ip = !found_command(found, "ip"@);
    let sl = !found_command(found, "slcand"@);
    let mp = !found_command(found, "modprobe"@);
    let expected = (if ip {
        seq![Prerequisite::Ip]
    } else {
        Seq::empty()
    }) + (if sl {
        seq![Prerequisite::Slcand]
    } else {
        Seq::empty()
    }) + (if mp {
        seq![Prerequisite::Modprobe]
    } else {
        Seq::empty()
    });
    assert(all.filter(f) =~= expected);
    if ip {
        assert(expected[0] == Prerequisite::Ip);
    }
    if sl {
        assert(expected[if ip { 1int } else { 0int }] == Prerequisite::Slcand);
    }
    if mp {
        assert(expected[expected.len() - 1] == Prerequisite::Modprobe);
    }
}

} // verus!
