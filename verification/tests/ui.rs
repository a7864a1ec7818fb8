use can_utils_rs::setup::models::{CanConfig, CanMode, VirtualConfig};
use can_utils_rs::setup::prereqs::Prerequisite;
use can_utils_rs::ui::app::{actions, App, AppReply, ToolAction};
use can_utils_rs::ui::draft::{cycle_index, required_text, EmptyField, Key, SetupDraft};
use can_utils_rs::ui::dump_flow::{DumpFlow, DumpReply};
use can_utils_rs::ui::setup_flow::{prereq_details, SetupFlow, SetupReply, SetupStep};

fn typed(flow: &mut SetupFlow, text: &str, status: &mut String) {
    for ch in text.chars() {
        flow.handle_key(Key::Char(ch), false, status);
    }
}

#[test]
fn menu_wraps_round_and_back() {
    let mut app = App::new();
    assert_eq!(app.status(), "Press Enter to run an action, q to quit.");
    assert_eq!(app.selected(), 0);
    app.previous();
    assert_eq!(app.selected(), 3);
    assert_eq!(app.selected_action(), ToolAction::Send);
    app.next();
    assert_eq!(app.selected(), 0);
    app.next();
    app.previous();
    assert_eq!(app.selected(), 0);
    assert_eq!(
        actions(),
        vec![ToolAction::Setup, ToolAction::Dump, ToolAction::SetupAndDump, ToolAction::Send]
    );
    assert_eq!(ToolAction::Setup.text(), "Create or manage a CAN interface");
    assert_eq!(ToolAction::SetupAndDump.text(), "Create/manage CAN interface then start dump");
}

#[test]
fn menu_keys_open_actions() {
    let mut app = App::new();
    assert!(matches!(app.handle_key(Key::Enter, true), Ok(AppReply::OpenSetup(false))));
    assert!(matches!(app.handle_key(Key::Char('j'), true), Ok(AppReply::Stay)));
    assert!(matches!(app.handle_key(Key::Enter, true), Ok(AppReply::OpenDump)));
    app.handle_key(Key::Down, true).unwrap();
    assert!(matches!(app.handle_key(Key::Enter, true), Ok(AppReply::OpenSetup(true))));
    app.handle_key(Key::Down, true).unwrap();
    assert!(matches!(
        app.handle_key(Key::Enter, true),
        Ok(AppReply::RunAction(ToolAction::Send))
    ));
    assert!(matches!(app.handle_key(Key::Char('q'), true), Ok(AppReply::Quit)));
}

#[test]
fn wizard_sets_up_a_virtual_interface() {
    let mut status = String::new();
    let mut flow = SetupFlow::new(true, Vec::new(), Vec::new());
    assert!(matches!(flow.step(), SetupStep::Mode { selected: 0 }));
    flow.handle_key(Key::Down, false, &mut status);
    flow.handle_key(Key::Down, false, &mut status);
    flow.handle_key(Key::Down, false, &mut status);
    flow.handle_key(Key::Enter, false, &mut status);
    assert!(matches!(flow.step(), SetupStep::Form));
    assert_eq!(flow.draft().mode(), CanMode::Virtual);
    for _ in 0..5 {
        flow.handle_key(Key::Backspace, false, &mut status);
    }
    flow.handle_key(Key::Enter, false, &mut status);
    assert_eq!(status, "virtual interface name cannot be empty");
    typed(&mut flow, "vcan9", &mut status);
    let reply = flow.handle_key(Key::Enter, false, &mut status);
    let config = match reply {
        SetupReply::CheckInterface(c) => c,
        _ => panic!("expected an interface check"),
    };
    assert_eq!(config.iface(), "vcan9");
    flow.after_interface_check(config, false);
    assert_eq!(
        flow.plan_preview(),
        vec![
            "sudo ip link add dev vcan9 type vcan",
            "sudo ip link set up vcan9",
            "ip link show vcan9"
        ]
    );
    let run = flow.handle_key(Key::Enter, false, &mut status);
    match run {
        SetupReply::Run(cmds) => assert_eq!(cmds.len(), 3),
        _ => panic!("expected commands to run"),
    }
    let done = flow.after_run(Ok(()), &mut status);
    assert_eq!(status, "Set up interface 'vcan9' successfully.");
    assert!(matches!(done, SetupReply::StartDump(ref i) if i == "vcan9"));
}

#[test]
fn wizard_replaces_an_existing_interface() {
    let mut status = String::new();
    let mut flow = SetupFlow::new(false, Vec::new(), Vec::new());
    flow.handle_key(Key::Down, false, &mut status);
    flow.handle_key(Key::Down, false, &mut status);
    flow.handle_key(Key::Enter, false, &mut status);
    let config = match flow.handle_key(Key::Enter, false, &mut status) {
        SetupReply::CheckInterface(c) => c,
        _ => panic!("expected an interface check"),
    };
    flow.after_interface_check(config, true);
    assert!(matches!(flow.step(), SetupStep::Conflict { .. }));
    flow.handle_key(Key::Enter, false, &mut status);
    let preview = flow.plan_preview();
    assert_eq!(preview[0], "Existing interface will be removed first.");
    match flow.handle_key(Key::Enter, false, &mut status) {
        SetupReply::Run(cmds) => {
            let lines: Vec<String> = cmds.iter().map(|c| c.argv.join(" ")).collect();
            assert_eq!(lines[2..], preview[1..]);
            assert_eq!(
                lines,
                vec![
                    "sudo ip link set vcan0 down",
                    "sudo ip link delete vcan0",
                    "sudo ip link add dev vcan0 type vcan",
                    "sudo ip link set up vcan0",
                    "ip link show vcan0"
                ]
            );
        }
        _ => panic!("expected commands to run"),
    }
    let done = flow.after_run(Err("boom".to_string()), &mut status);
    assert_eq!(status, "Setup failed: boom");
    assert!(matches!(done, SetupReply::Exit));
}

#[test]
fn wizard_offers_prerequisites_first() {
    let mut status = String::new();
    let missing = vec![Prerequisite::Slcand];
    let mut flow = SetupFlow::new(false, missing, Vec::new());
    match flow.handle_key(Key::Enter, true, &mut status) {
        SetupReply::Install(p) => assert_eq!(p, vec![Prerequisite::Slcand]),
        _ => panic!("expected an install request"),
    }
    flow.after_install(Ok(Vec::new()), &mut status);
    assert_eq!(status, "Installed missing prerequisites.");
    assert!(matches!(flow.step(), SetupStep::Mode { selected: 0 }));
    assert!(matches!(flow.handle_key(Key::Esc, true, &mut status), SetupReply::Exit));
    assert_eq!(status, "Cancelled setup and returned to the menu.");
    let both = vec![Prerequisite::Ip, Prerequisite::Modprobe];
    assert_eq!(
        prereq_details(&both, true),
        "Missing prerequisites: iproute2 / ip, kmod / modprobe\nPackages to install: iproute2, kmod"
    );
    assert_eq!(
        prereq_details(&both, false),
        "Missing prerequisites: iproute2 / ip, kmod / modprobe"
    );
}

#[test]
fn form_selection_cycles_round_its_list() {
    let mut draft = SetupDraft::new(Vec::new());
    assert_eq!(draft.mode(), CanMode::Native);
    let first = draft.form_lines();
    draft.cycle_option(1, 1);
    draft.cycle_option(1, -1);
    assert_eq!(draft.form_lines(), first);
    draft.cycle_option(1, -1);
    assert_eq!(draft.form_lines()[1], "CAN bitrate: 1 Mbit (1000000)");
    draft.push_char(0, 'x');
    draft.backspace(0);
    assert_eq!(draft.form_lines()[0], "Interface name: can0");
    assert_eq!(cycle_index(0, 8, -1), 7);
    assert_eq!(cycle_index(7, 8, 1), 0);
    assert_eq!(cycle_index(3, 0, 1), 0);
}

#[test]
fn required_fields_are_trimmed() {
    assert_eq!(required_text("Interface name", "  can1 "), Ok("can1".to_string()));
    let err = required_text("Interface name", "   ").unwrap_err();
    assert_eq!(err, EmptyField { label: "Interface name" });
    assert_eq!(err.message(), "Interface name cannot be empty");
}

#[test]
fn dump_screen_picks_or_types_an_interface() {
    let mut status = String::new();
    let mut dump = DumpFlow::new(vec!["can0".to_string()]);
    assert_eq!(dump.select_items(), vec!["can0", "Enter manually: "]);
    assert!(matches!(
        dump.handle_key(Key::Enter, &mut status),
        Ok(DumpReply::StartStream(ref i)) if i == "can0"
    ));
    dump.handle_key(Key::Down, &mut status).unwrap();
    assert!(dump.handle_key(Key::Enter, &mut status).is_err());
    for ch in "vcan3".chars() {
        dump.handle_key(Key::Char(ch), &mut status).unwrap();
    }
    assert_eq!(dump.select_items()[1], "Enter manually: vcan3");
    match dump.handle_key(Key::Enter, &mut status) {
        Ok(DumpReply::StartStream(i)) => dump.start_stream(i, &mut status),
        _ => panic!("expected a stream"),
    }
    assert_eq!(dump.stream_iface(), Some("vcan3"));
    assert_eq!(dump.visible_frames(5), "Waiting for CAN frames...");
    assert!(matches!(dump.handle_key(Key::Char('q'), &mut status), Ok(DumpReply::Exit)));
    assert_eq!(status, "Stopped CAN dump and returned to the menu.");
}

#[test]
fn dump_screen_keeps_the_last_500_lines() {
    let mut status = String::new();
    let mut dump = DumpFlow::with_interface("can0".to_string());
    for i in 0..600 {
        dump.push_frame_line(format!("line {i}"));
    }
    assert_eq!(dump.visible_frames(2), "line 598\nline 599");
    let all = dump.visible_frames(10_000);
    assert_eq!(all.lines().count(), 500);
    assert!(all.starts_with("line 100\n"));
    dump.start_stream("can1".to_string(), &mut status);
    assert_eq!(dump.visible_frames(5), "Waiting for CAN frames...");
}

#[test]
fn app_holds_wizard_and_dump() {
    let mut app = App::new();
    app.open_dump(vec!["can0".to_string()]);
    assert!(app.dump().is_some());
    assert!(matches!(app.handle_key(Key::Esc, true), Ok(AppReply::Dump(DumpReply::Exit))));
    assert!(app.dump().is_none());
    let config = CanConfig::Virtual(VirtualConfig::new("vcan0".to_string()));
    app.open_setup(false, Vec::new(), Vec::new());
    assert!(app.setup().is_some());
    app.setup_after_interface_check(config, false);
}

#[test]
fn replace_choice_is_dropped_when_the_new_name_is_free() {
    let mut status = String::new();
    let mut flow = SetupFlow::new(false, Vec::new(), Vec::new());
    flow.handle_key(Key::Down, false, &mut status);
    flow.handle_key(Key::Down, false, &mut status);
    flow.handle_key(Key::Enter, false, &mut status);
    let config = match flow.handle_key(Key::Enter, false, &mut status) {
        SetupReply::CheckInterface(c) => c,
        _ => panic!("expected an interface check"),
    };
    flow.after_interface_check(config, true);
    flow.handle_key(Key::Enter, false, &mut status);
    assert!(matches!(flow.step(), SetupStep::Plan { .. }));
    flow.handle_key(Key::Esc, false, &mut status);
    flow.handle_key(Key::Char('1'), false, &mut status);
    let renamed = match flow.handle_key(Key::Enter, false, &mut status) {
        SetupReply::CheckInterface(c) => c,
        _ => panic!("expected an interface check"),
    };
    assert_eq!(renamed.iface(), "vcan01");
    flow.after_interface_check(renamed, false);
    assert_eq!(
        flow.plan_preview(),
        vec![
            "sudo ip link add dev vcan01 type vcan",
            "sudo ip link set up vcan01",
            "ip link show vcan01"
        ]
    );
    match flow.handle_key(Key::Enter, false, &mut status) {
        SetupReply::Run(cmds) => assert_eq!(cmds.len(), 3),
        _ => panic!("expected commands to run"),
    }
}
