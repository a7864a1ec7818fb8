use can_utils_rs::setup::exec::{
    check_interface_already_available, ensure_interface_name_is_available, execute_config,
    execute_existing_set_up, remove_existing_interface, NameEvent, NameStep, PlannedCommand,
};
use can_utils_rs::setup::models::{
    slcan_speeds, CanBitrate, CanConfig, CanMode, ExistingIfaceAction, InterfaceResolution,
    NativeConfig, SlcanConfig, SlcanSpeed, VirtualConfig,
};
use can_utils_rs::setup::plan::plan_lines;
use can_utils_rs::setup::prereqs::{
    has_apt, installation_plan, join_prerequisites, missing_prerequisites,
    missing_prerequisites_report, packages_for_missing_prerequisites, startup_actions,
    PrereqError, Prerequisite, StartupAction,
};
use can_utils_rs::setup::prompt::serial_candidates_from;

fn argv(cmds: &[PlannedCommand]) -> Vec<(String, bool)> {
    cmds.iter().map(|c| (c.argv.join(" "), c.required)).collect()
}

fn native() -> CanConfig {
    CanConfig::Native(NativeConfig::new("can0".to_string(), CanBitrate::B500K))
}

fn slcan() -> CanConfig {
    let speed = SlcanSpeed { bitrate: 500_000, flag: "s6" };
    CanConfig::Slcan(SlcanConfig::new(
        "/dev/ttyUSB0".to_string(),
        "slcan0".to_string(),
        speed,
        3_000_000,
    ))
}

fn virtual_can() -> CanConfig {
    CanConfig::Virtual(VirtualConfig::new("vcan0".to_string()))
}

#[test]
fn plan_lines_match_readme_examples() {
    assert_eq!(plan_lines(&native()), vec!["sudo ip link set can0 up type can bitrate 500000"]);
    assert_eq!(
        plan_lines(&slcan()),
        vec![
            "sudo slcand -c -o -f -s6 -t hw -S 3000000 /dev/ttyUSB0 slcan0",
            "sudo ip link set up slcan0"
        ]
    );
    assert_eq!(
        plan_lines(&virtual_can()),
        vec![
            "sudo ip link add dev vcan0 type vcan",
            "sudo ip link set up vcan0",
            "ip link show vcan0"
        ]
    );
}

#[test]
fn executed_commands_are_the_previewed_ones() {
    for config in [native(), slcan(), virtual_can()] {
        let shown = plan_lines(&config);
        let run: Vec<String> = argv(&execute_config(&config)).into_iter().map(|c| c.0).collect();
        assert_eq!(shown, run);
        assert!(execute_config(&config).iter().all(|c| c.required));
    }
}

#[test]
fn replacing_removes_then_recreates() {
    assert_eq!(
        argv(&remove_existing_interface(&native())),
        vec![("sudo ip link set can0 down".to_string(), false)]
    );
    assert_eq!(
        argv(&remove_existing_interface(&slcan())),
        vec![
            ("sudo ip link set slcan0 down".to_string(), false),
            ("sudo slcand -k slcan0".to_string(), false)
        ]
    );
    assert_eq!(
        argv(&remove_existing_interface(&virtual_can())),
        vec![
            ("sudo ip link set vcan0 down".to_string(), false),
            ("sudo ip link delete vcan0".to_string(), true)
        ]
    );
    assert_eq!(
        argv(&execute_existing_set_up(&slcan())),
        vec![("sudo ip link set up slcan0".to_string(), true)]
    );
}

#[test]
fn failures_stop_only_required_commands() {
    let cmds = remove_existing_interface(&virtual_can());
    assert!(!cmds[0].stops_on(false));
    assert!(!cmds[0].stops_on(true));
    assert!(cmds[1].stops_on(false));
    assert!(!cmds[1].stops_on(true));
}

#[test]
fn existing_interface_is_kept_and_brought_up() {
    let kept = check_interface_already_available(&native(), true);
    assert_eq!(kept.resolution, InterfaceResolution::SkipSetup);
    assert_eq!(argv(&kept.commands), vec![("sudo ip link set up can0".to_string(), true)]);
    let free = check_interface_already_available(&native(), false);
    assert_eq!(free.resolution, InterfaceResolution::Proceed);
    assert!(free.commands.is_empty());
}

#[test]
fn choosing_a_free_name_step_by_step() {
    let mut config = virtual_can();
    assert!(matches!(
        ensure_interface_name_is_available(&mut config, NameEvent::Start),
        NameStep::CheckExists
    ));
    assert!(matches!(
        ensure_interface_name_is_available(&mut config, NameEvent::Exists(true)),
        NameStep::AskAction
    ));
    assert!(matches!(
        ensure_interface_name_is_available(
            &mut config,
            NameEvent::Chosen(ExistingIfaceAction::Rename)
        ),
        NameStep::AskNewName
    ));
    assert!(matches!(
        ensure_interface_name_is_available(&mut config, NameEvent::NewName("vcan1".to_string())),
        NameStep::CheckExists
    ));
    assert_eq!(config.iface(), "vcan1");
    match ensure_interface_name_is_available(&mut config, NameEvent::Exists(false)) {
        NameStep::Finish(r, cmds) => {
            assert_eq!(r, InterfaceResolution::Proceed);
            assert!(cmds.is_empty());
        }
        _ => panic!("expected to finish"),
    }
    match ensure_interface_name_is_available(
        &mut config,
        NameEvent::Chosen(ExistingIfaceAction::Replace),
    ) {
        NameStep::Finish(r, cmds) => {
            assert_eq!(r, InterfaceResolution::Proceed);
            assert_eq!(argv(&cmds)[1].0, "sudo ip link delete vcan1");
        }
        _ => panic!("expected to finish"),
    }
    match ensure_interface_name_is_available(&mut config, NameEvent::Chosen(ExistingIfaceAction::Skip))
    {
        NameStep::Finish(r, cmds) => {
            assert_eq!(r, InterfaceResolution::SkipSetup);
            assert_eq!(argv(&cmds), vec![("sudo ip link set up vcan1".to_string(), true)]);
        }
        _ => panic!("expected to finish"),
    }
    assert!(matches!(
        ensure_interface_name_is_available(
            &mut config,
            NameEvent::Chosen(ExistingIfaceAction::Cancel)
        ),
        NameStep::Cancelled
    ));
}

#[test]
fn renaming_keeps_other_settings() {
    let mut config = slcan();
    config.set_iface("slcan7".to_string());
    match &config {
        CanConfig::Slcan(cfg) => {
            assert_eq!(cfg.iface, "slcan7");
            assert_eq!(cfg.tty, "/dev/ttyUSB0");
            assert_eq!(cfg.uart_baud, 3_000_000);
            assert_eq!(cfg.speed.flag, "s6");
        }
        _ => panic!("kind changed"),
    }
    config.set_iface("slcan8".to_string());
    assert_eq!(config.iface(), "slcan8");
}

#[test]
fn configs_built_from_a_mode() {
    let c = CanConfig::new(CanMode::Native, "can1".to_string(), Some(CanBitrate::B1M), None, None);
    assert_eq!(plan_lines(&c), vec!["sudo ip link set can1 up type can bitrate 1000000"]);
    let speed = slcan_speeds()[0];
    let s = CanConfig::new(CanMode::Slcan, "slcan1".to_string(), None, Some(speed), Some(115200));
    assert_eq!(plan_lines(&s)[0], "sudo slcand -c -o -f -s8 -t hw -S 115200 /dev/ttyUSB0 slcan1");
    let v = CanConfig::new(CanMode::Virtual, "vcan2".to_string(), None, None, None);
    assert_eq!(v.iface(), "vcan2");
    assert_eq!(v.duplicate().iface(), "vcan2");
}

#[test]
fn bitrates_and_speeds_are_listed_fastest_first() {
    let rates: Vec<u32> = CanBitrate::can_bitrates().iter().map(|b| b.bitrate()).collect();
    assert_eq!(
        rates,
        vec![1_000_000, 500_000, 250_000, 125_000, 100_000, 50_000, 20_000, 10_000]
    );
    assert_eq!(CanBitrate::B500K.text(), "500 kbit (500000)");
    assert_eq!(CanBitrate::B1M.text(), "1 Mbit (1000000)");
    let speeds = slcan_speeds();
    let flags: Vec<&str> = speeds.iter().map(|s| s.flag).collect();
    assert_eq!(flags, vec!["s8", "s7", "s6", "s5", "s4", "s3", "s2", "s1", "s0"]);
    assert_eq!(speeds[0].text(), "1 Mbit     (1000000, s8)");
    assert_eq!(speeds[1].text(), "800 kbit   (800000, s7)");
    assert_eq!(CanMode::Slcan.text(), "Non-native CAN bus (slcand)");
}

#[test]
fn missing_tools_and_their_packages() {
    let found = vec!["ip".to_string(), "apt".to_string()];
    let missing = missing_prerequisites(&found);
    assert_eq!(missing, vec![Prerequisite::Slcand, Prerequisite::Modprobe]);
    assert!(has_apt(&found));
    assert!(!has_apt(&Vec::new()));
    assert_eq!(packages_for_missing_prerequisites(&missing), vec!["can-utils", "kmod"]);
    let all = missing_prerequisites(&Vec::new());
    assert_eq!(packages_for_missing_prerequisites(&all), vec!["can-utils", "iproute2", "kmod"]);
    assert_eq!(join_prerequisites(&missing), "can-utils / slcand, kmod / modprobe");
    assert_eq!(
        missing_prerequisites_report(&missing),
        vec![
            "Missing prerequisites:",
            "  - can-utils / slcand",
            "  - kmod / modprobe",
            ""
        ]
    );
    assert!(missing_prerequisites_report(&Vec::new()).is_empty());
}

#[test]
fn installation_needs_apt() {
    let missing = vec![Prerequisite::Ip];
    assert_eq!(installation_plan(&missing, false).unwrap_err(), PrereqError::NoApt);
    assert_eq!(
        PrereqError::NoApt.message(),
        "automatic installation is currently only supported on apt-based systems"
    );
    assert!(installation_plan(&Vec::new(), false).unwrap().is_none());
    let plan = installation_plan(&missing, true).unwrap().unwrap();
    assert_eq!(plan.packages, vec!["iproute2"]);
    assert_eq!(
        argv(&plan.commands),
        vec![
            ("sudo apt update".to_string(), true),
            ("sudo apt install -y iproute2".to_string(), true)
        ]
    );
}

#[test]
fn startup_choices() {
    assert_eq!(
        startup_actions(true),
        vec![
            StartupAction::InstallPrerequisites,
            StartupAction::ContinueAnyway,
            StartupAction::Exit
        ]
    );
    assert_eq!(startup_actions(false), vec![StartupAction::ContinueAnyway, StartupAction::Exit]);
    assert_eq!(StartupAction::InstallPrerequisites.text(), "Install prerequisites");
    assert_eq!(Prerequisite::Ip.binary_name(), "ip");
    assert_eq!(Prerequisite::Modprobe.description(), "kmod / modprobe");
}

#[test]
fn serial_adapters_are_found_under_dev() {
    let names = vec![
        "tty0".to_string(),
        "ttyUSB1".to_string(),
        "ttyACM0".to_string(),
        "ttyUSB0".to_string(),
        "null".to_string(),
    ];
    assert_eq!(
        serial_candidates_from(&names),
        vec!["/dev/ttyACM0", "/dev/ttyUSB0", "/dev/ttyUSB1"]
    );
}
