//! The set-up wizard: prerequisites, kind of connection, the form, an
//! interface that already exists, and the preview of the commands.
use vstd::prelude::*;

use crate::setup::exec::{
    command_views, execute_config, execute_existing_set_up, remove_existing_interface,
    spec_bring_up_commands, spec_remove_commands, spec_setup_commands, PlannedCommand,
};
use crate::setup::models::{CanConfig, CanMode};
use crate::setup::plan::{law_preview_matches_commands, plan_lines, spec_plan_lines};
use crate::setup::prereqs::{
    join_prerequisites, packages_for_missing_prerequisites, spec_join_descriptions, spec_packages,
    Prerequisite,
};
use crate::text::{comma_joined, join_words, push_str, views_of};
use crate::ui::draft::{
    spec_backspace, spec_build_error, spec_built, spec_copy_iface, spec_cycle, spec_form_len,
    spec_form_lines, spec_iface_field, initial_draft, spec_mode_at, spec_mode_index, spec_push_char,
    text_field_label, DraftView, Key, SetupDraft,
};

verus! {

/// The screen the wizard shows.
pub enum SetupStep {
    /// Some tools are missing: install them, continue, or go back.
    Prereqs { missing: Vec<Prerequisite> },
    /// Choosing the kind of connection.
    Mode { selected: usize },
    /// Editing the form.
    Form,
    /// The interface already exists.
    Conflict { config: CanConfig },
    /// The commands, before running them.
    Plan { config: CanConfig },
}

/// The commands the wizard is waiting on, and the interface they concern.
pub enum PendingRun {
    /// Bringing up the interface that exists.
    KeepExisting(String),
    /// Setting up the interface.
    Execute(String),
}

/// What the caller does after a key.
pub enum SetupReply {
    /// Keep showing the wizard.
    Stay,
    /// Leave the wizard for the menu.
    Exit,
    /// Leave the wizard for a live dump of the interface.
    StartDump(String),
    /// Install the packages for these prerequisites, then report with
    /// `after_install`.
    Install(Vec<Prerequisite>),
    /// Find out whether the configuration's interface exists, then report
    /// with `after_interface_check`.
    CheckInterface(CanConfig),
    /// Run these commands in order, stopping at the first failure of a
    /// required one, then report with `after_run`.
    Run(Vec<PlannedCommand>),
}

pub enum StepView {
    Prereqs(Seq<Prerequisite>),
    Mode(nat),
    Form,
    Conflict(CanConfig),
    Plan(CanConfig),
}

pub enum PendingView {
    KeepExisting(Seq<char>),
    Execute(Seq<char>),
}

pub enum ReplyView {
    Stay,
    Exit,
    StartDump(Seq<char>),
    Install(Seq<Prerequisite>),
    CheckInterface(CanConfig),
    Run(Seq<(Seq<Seq<char>>, bool)>),
}

impl View for SetupReply {
    type V = ReplyView;

    open spec fn view(&self) -> ReplyView {
        match self {
            SetupReply::Stay => ReplyView::Stay,
            SetupReply::Exit => ReplyView::Exit,
            SetupReply::StartDump(s) => ReplyView::StartDump(s@),
            SetupReply::Install(m) => ReplyView::Install(m@),
            SetupReply::CheckInterface(c) => ReplyView::CheckInterface(*c),
            SetupReply::Run(cmds) => ReplyView::Run(command_views(cmds@)),
        }
    }
}

/// The wizard.
pub struct SetupFlow {
    after_setup_dump: bool,
    step: SetupStep,
    draft: SetupDraft,
    prereq_selected: usize,
    form_field: usize,
    conflict_selected: usize,
    plan_selected: usize,
    replace_existing: bool,
    pending: Option<PendingRun>,
}

pub struct FlowView {
    pub after_setup_dump: bool,
    pub step: StepView,
    pub draft: DraftView,
    pub prereq_selected: nat,
    pub form_field: nat,
    pub conflict_selected: nat,
    pub plan_selected: nat,
    pub replace_existing: bool,
    pub pending: Option<PendingView>,
}

pub open spec fn step_view(s: SetupStep) -> StepView {
    match s {
        SetupStep::Prereqs { missing } => StepView::Prereqs(missing@),
        SetupStep::Mode { selected } => StepView::Mode(selected as nat),
        SetupStep::Form => StepView::Form,
        SetupStep::Conflict { config } => StepView::Conflict(config),
        SetupStep::Plan { config } => StepView::Plan(config),
    }
}

pub open spec fn pending_view(p: Option<PendingRun>) -> Option<PendingView> {
    match p {
        Some(PendingRun::KeepExisting(s)) => Some(PendingView::KeepExisting(s@)),
        Some(PendingRun::Execute(s)) => Some(PendingView::Execute(s@)),
        None => None,
    }
}

impl View for SetupFlow {
    type V = FlowView;

    closed spec fn view(&self) -> FlowView {
        FlowView {
            after_setup_dump: self.after_setup_dump,
            step: step_view(self.step),
            draft: self.draft@,
            prereq_selected: self.prereq_selected as nat,
            form_field: self.form_field as nat,
            conflict_selected: self.conflict_selected as nat,
            plan_selected: self.plan_selected as nat,
            replace_existing: self.replace_existing,
            pending: pending_view(self.pending),
        }
    }
}

/// Every selection stays within its menu: three prerequisite actions, three
/// kinds, four form fields, four conflict actions, three plan actions.
pub open spec fn selections_bounded(v: FlowView) -> bool {
    &&& v.prereq_selected <= 2
    &&& v.form_field <= 3
    &&& v.conflict_selected <= 3
    &&& v.plan_selected <= 2
    &&& (v.step matches StepView::Mode(s) ==> s <= 2)
}

pub open spec fn is_up(k: Key) -> bool {
    k == Key::Up || k == Key::Char('k')
}

pub open spec fn is_down(k: Key) -> bool {
    k == Key::Down || k == Key::Char('j')
}

/// One less, stopping at zero.
pub open spec fn sat_dec(n: nat) -> nat {
    if n == 0 {
        0
    } else {
        (n - 1) as nat
    }
}

/// One more, stopping at `last`.
pub open spec fn inc_to(n: nat, last: nat) -> nat {
    if n + 1 <= last {
        n + 1
    } else {
        last
    }
}

pub open spec fn cancel_text() -> Seq<char> {
    "Cancelled setup and returned to the menu."@
}

/// What a key does on each screen: the wizard after it, the reply, and the
/// new status line (`None` leaves it as it was).
pub open spec fn spec_setup_key(v: FlowView, key: Key, has_apt: bool) -> (
    FlowView,
    ReplyView,
    Option<Seq<char>>,
) {
    match v.step {
        StepView::Prereqs(missing) => {
            let last: nat = if has_apt {
                2
            } else {
                1
            };
            if is_up(key) {
                (FlowView { prereq_selected: sat_dec(v.prereq_selected), ..v }, ReplyView::Stay, None)
            } else if is_down(key) {
                (
                    FlowView { prereq_selected: inc_to(v.prereq_selected, last), ..v },
                    ReplyView::Stay,
                    None,
                )
            } else if key == Key::Enter {
                if has_apt && v.prereq_selected == 0 {
                    (v, ReplyView::Install(missing), None)
                } else if v.prereq_selected == (if has_apt {
                    1nat
                } else {
                    0nat
                }) {
                    (FlowView { step: StepView::Mode(0), ..v }, ReplyView::Stay, None)
                } else {
                    (v, ReplyView::Exit, Some(cancel_text()))
                }
            } else if key == Key::Esc {
                (v, ReplyView::Exit, Some(cancel_text()))
            } else {
                (v, ReplyView::Stay, None)
            }
        },
        StepView::Mode(selected) => {
            if is_up(key) {
                (FlowView { step: StepView::Mode(sat_dec(selected)), ..v }, ReplyView::Stay, None)
            } else if is_down(key) {
                (FlowView { step: StepView::Mode(inc_to(selected, 2)), ..v }, ReplyView::Stay, None)
            } else if key == Key::Enter {
                (
                    FlowView {
                        draft: DraftView { mode: spec_mode_at(selected as int), ..v.draft },
                        form_field: 0,
                        replace_existing: false,
                        step: StepView::Form,
                        ..v
                    },
                    ReplyView::Stay,
                    None,
                )
            } else if key == Key::Esc {
                (v, ReplyView::Exit, Some(cancel_text()))
            } else {
                (v, ReplyView::Stay, None)
            }
        },
        StepView::Form => {
            let field = v.form_field;
            if is_up(key) {
                (FlowView { form_field: sat_dec(field), ..v }, ReplyView::Stay, None)
            } else if is_down(key) || key == Key::Tab {
                (
                    FlowView {
                        form_field: inc_to(field, (spec_form_len(v.draft.mode) - 1) as nat),
                        ..v
                    },
                    ReplyView::Stay,
                    None,
                )
            } else if key == Key::Left || key == Key::Char('h') {
                (FlowView { draft: spec_cycle(v.draft, field as int, -1), ..v }, ReplyView::Stay, None)
            } else if key == Key::Right || key == Key::Char('l') {
                (FlowView { draft: spec_cycle(v.draft, field as int, 1), ..v }, ReplyView::Stay, None)
            } else if key == Key::Backspace {
                (FlowView { draft: spec_backspace(v.draft, field as int), ..v }, ReplyView::Stay, None)
            } else {
                match key {
                    Key::Char(ch) => (
                        FlowView { draft: spec_push_char(v.draft, field as int, ch), ..v },
                        ReplyView::Stay,
                        None,
                    ),
                    Key::Enter => match spec_build_error(v.draft) {
                        Some(e) => (v, ReplyView::Stay, Some(e.label@ + " cannot be empty"@)),
                        None => (v, ReplyView::Stay, None),
                    },
                    Key::Esc => (
                        FlowView { step: StepView::Mode(spec_mode_index(v.draft.mode)), ..v },
                        ReplyView::Stay,
                        None,
                    ),
                    _ => (v, ReplyView::Stay, None),
                }
            }
        },
        StepView::Conflict(config) => {
            if is_up(key) {
                (FlowView { conflict_selected: sat_dec(v.conflict_selected), ..v }, ReplyView::Stay, None)
            } else if is_down(key) {
                (
                    FlowView { conflict_selected: inc_to(v.conflict_selected, 3), ..v },
                    ReplyView::Stay,
                    None,
                )
            } else if key == Key::Enter {
                if v.conflict_selected == 0 {
                    (
                        FlowView {
                            replace_existing: true,
                            plan_selected: 0,
                            step: StepView::Plan(config),
                            ..v
                        },
                        ReplyView::Stay,
                        None,
                    )
                } else if v.conflict_selected == 1 {
                    let draft = spec_copy_iface(v.draft, config);
                    (
                        FlowView {
                            draft,
                            form_field: spec_iface_field(draft.mode),
                            step: StepView::Form,
                            ..v
                        },
                        ReplyView::Stay,
                        Some(
                            "Edit the interface name for '"@ + config.spec_iface()
                                + "' and press Enter again."@,
                        ),
                    )
                } else if v.conflict_selected == 2 {
                    (
                        FlowView {
                            pending: Some(PendingView::KeepExisting(config.spec_iface())),
                            ..v
                        },
                        ReplyView::Run(spec_bring_up_commands(config)),
                        None,
                    )
                } else {
                    (v, ReplyView::Exit, Some(cancel_text()))
                }
            } else if key == Key::Esc {
                (FlowView { step: StepView::Form, ..v }, ReplyView::Stay, None)
            } else {
                (v, ReplyView::Stay, None)
            }
        },
        StepView::Plan(config) => {
            if is_up(key) {
                (FlowView { plan_selected: sat_dec(v.plan_selected), ..v }, ReplyView::Stay, None)
            } else if is_down(key) {
                (FlowView { plan_selected: inc_to(v.plan_selected, 2), ..v }, ReplyView::Stay, None)
            } else if key == Key::Enter {
                if v.plan_selected == 0 {
                    (
                        FlowView { pending: Some(PendingView::Execute(config.spec_iface())), ..v },
                        ReplyView::Run(
                            if v.replace_existing {
                                spec_remove_commands(config)
                            } else {
                                Seq::empty()
                            } + spec_setup_commands(config),
                        ),
                        None,
                    )
                } else if v.plan_selected == 1 {
                    (FlowView { step: StepView::Form, ..v }, ReplyView::Stay, None)
                } else {
                    (v, ReplyView::Exit, Some(cancel_text()))
                }
            } else if key == Key::Esc {
                (FlowView { step: StepView::Form, ..v }, ReplyView::Stay, None)
            } else {
                (v, ReplyView::Stay, None)
            }
        },
    }
}

/// The entries of the action list of each screen.
pub open spec fn spec_action_items(v: FlowView, has_apt: bool) -> Seq<Seq<char>> {
    match v.step {
        StepView::Prereqs(_) => (if has_apt {
            seq!["Install missing prerequisites"@]
        } else {
            Seq::empty()
        }) + seq!["Continue anyway"@, "Back to menu"@],
        StepView::Conflict(_) => seq![
            "Replace existing interface"@,
            "Edit interface name"@,
            "Keep existing and skip setup"@,
            "Back to menu"@,
        ],
        StepView::Plan(_) => seq![
            if v.after_setup_dump {
                "Execute now and start dump"@
            } else {
                "Execute now"@
            },
            "Back to edit"@,
            "Back to menu"@,
        ],
        _ => Seq::empty(),
    }
}

/// A new wizard: the missing prerequisites first, if any, else the choice
/// of the kind of connection, over the starting form.
pub open spec fn spec_new_flow(
    after_setup_dump: bool,
    missing: Seq<Prerequisite>,
    serial_candidates: Seq<String>,
) -> FlowView {
    FlowView {
        after_setup_dump,
        step: if missing.len() == 0 {
            StepView::Mode(0)
        } else {
            StepView::Prereqs(missing)
        },
        draft: initial_draft(serial_candidates),
        prereq_selected: 0,
        form_field: 0,
        conflict_selected: 0,
        plan_selected: 0,
        replace_existing: false,
        pending: None,
    }
}

/// The wizard and its status line after installing prerequisites, given
/// the ones still missing or the failure.
pub open spec fn spec_after_install(v: FlowView, result: Result<Vec<Prerequisite>, String>) -> (
    FlowView,
    Seq<char>,
) {
    match result {
        Ok(still) => if still@.len() == 0 {
            (FlowView { step: StepView::Mode(0), ..v }, "Installed missing prerequisites."@)
        } else {
            (
                FlowView { step: StepView::Prereqs(still@), ..v },
                "Some prerequisites are still missing: "@ + spec_join_descriptions(still@),
            )
        },
        Err(e) => (v, "Prerequisite installation failed: "@ + e@),
    }
}

/// The wizard once it is known whether `config`'s interface exists: the
/// choice about the existing interface, or the preview of the commands,
/// which then removes no interface.
pub open spec fn spec_after_check(v: FlowView, config: CanConfig, exists: bool) -> FlowView {
    if exists {
        FlowView { conflict_selected: 0, step: StepView::Conflict(config), ..v }
    } else {
        FlowView { plan_selected: 0, replace_existing: false, step: StepView::Plan(config), ..v }
    }
}

/// The reply and status line once the commands the wizard waited on ran:
/// a dump of the interface or the way back to the menu on success, the
/// menu with the failure otherwise.
pub open spec fn spec_after_run(v: FlowView, result: Result<(), String>, status: Seq<char>) -> (
    ReplyView,
    Seq<char>,
) {
    let done = |iface: Seq<char>|
        if v.after_setup_dump {
            ReplyView::StartDump(iface)
        } else {
            ReplyView::Exit
        };
    match v.pending {
        Some(PendingView::KeepExisting(iface)) => match result {
            Ok(()) => (done(iface), "Kept existing interface '"@ + iface + "' and skipped setup."@),
            Err(e) => (ReplyView::Exit, "Failed while reusing interface: "@ + e@),
        },
        Some(PendingView::Execute(iface)) => match result {
            Ok(()) => (done(iface), "Set up interface '"@ + iface + "' successfully."@),
            Err(e) => (ReplyView::Exit, "Setup failed: "@ + e@),
        },
        None => (ReplyView::Stay, status),
    }
}

/// The status line after a key: the new one, or the old one.
pub open spec fn status_after(old_status: Seq<char>, change: Option<Seq<char>>) -> Seq<char> {
    match change {
        Some(s) => s,
        None => old_status,
    }
}

/// Whether the key is Enter on a complete form, which asks for the
/// interface to be looked up.
pub open spec fn builds_config(v: FlowView, key: Key) -> bool {
    v.step is Form && key == Key::Enter && spec_build_error(v.draft) is None
}

impl SetupFlow {
    /// A wizard that starts with the missing prerequisites, if any, else
    /// with the choice of the kind of connection.
    pub fn new(after_setup_dump: bool, missing: Vec<Prerequisite>, serial_candidates: Vec<String>) -> (res: Self)
        ensures
            res@ == spec_new_flow(after_setup_dump, missing@, serial_candidates@),
    {
        let step = if missing.len() == 0 {
            SetupStep::Mode { selected: 0 }
        } else {
            SetupStep::Prereqs { missing }
        };
        let draft = SetupDraft::new(serial_candidates);
        SetupFlow {
            after_setup_dump,
            step,
            draft,
            prereq_selected: 0,
            form_field: 0,
            conflict_selected: 0,
            plan_selected: 0,
            replace_existing: false,
            pending: None,
        }
    }

    /// Handles a key; `has_apt` says whether installing is offered.
    pub fn handle_key(&mut self, key: Key, has_apt: bool, status: &mut String) -> (res: SetupReply)
        ensures
            !builds_config(old(self)@, key) ==> final(self)@ == spec_setup_key(
                old(self)@,
                key,
                has_apt,
            ).0 && res@ == spec_setup_key(old(self)@, key, has_apt).1 && final(status)@
                == status_after(old(status)@, spec_setup_key(old(self)@, key, has_apt).2),
            builds_config(old(self)@, key) ==> final(self)@ == old(self)@ && final(status)@ == old(
                status,
            )@ && (res matches SetupReply::CheckInterface(config) && spec_built(
                old(self)@.draft,
                config,
            )),
            selections_bounded(old(self)@) ==> selections_bounded(final(self)@),
    {
        let up = key == Key::Up || key == Key::Char('k');
        let down = key == Key::Down || key == Key::Char('j');
        let cancel = "Cancelled setup and returned to the menu.";
        match &self.step {
            SetupStep::Prereqs { missing } => {
                let last: usize = if has_apt {
                    2
                } else {
                    1
                };
                if up {
                    self.prereq_selected = if self.prereq_selected == 0 {
                        0
                    } else {
                        self.prereq_selected - 1
                    };
                    SetupReply::Stay
                } else if down {
                    self.prereq_selected = if self.prereq_selected < last {
                        self.prereq_selected + 1
                    } else {
                        last
                    };
                    SetupReply::Stay
                } else if key == Key::Enter {
                    let back: usize = if has_apt {
                        1
                    } else {
                        0
                    };
                    if has_apt && self.prereq_selected == 0 {
                        let copy = missing.clone();
                        assert(copy@ =~= missing@);
                        SetupReply::Install(copy)
                    } else if self.prereq_selected == back {
                        self.step = SetupStep::Mode { selected: 0 };
                        SetupReply::Stay
                    } else {
                        *status = String::from_str(cancel);
                        SetupReply::Exit
                    }
                } else if key == Key::Esc {
                    *status = String::from_str(cancel);
                    SetupReply::Exit
                } else {
                    SetupReply::Stay
                }
            },
            SetupStep::Mode { selected } => {
                let selected = *selected;
                if up {
                    self.step = SetupStep::Mode {
                        selected: if selected == 0 {
                            0
                        } else {
                            selected - 1
                        },
                    };
                    SetupReply::Stay
                } else if down {
                    self.step = SetupStep::Mode {
                        selected: if selected < 2 {
                            selected + 1
                        } else {
                            2
                        },
                    };
                    SetupReply::Stay
                } else if key == Key::Enter {
                    self.draft.set_mode(selected);
                    self.form_field = 0;
                    self.replace_existing = false;
                    self.step = SetupStep::Form;
                    SetupReply::Stay
                } else if key == Key::Esc {
                    *status = String::from_str(cancel);
                    SetupReply::Exit
                } else {
                    SetupReply::Stay
                }
            },
            SetupStep::Form => {
                let field = self.form_field;
                if up {
                    self.form_field = if field == 0 {
                        0
                    } else {
                        field - 1
                    };
                    SetupReply::Stay
                } else if down || key == Key::Tab {
                    let last = self.draft.form_len() - 1;
                    self.form_field = if field < last {
                        field + 1
                    } else {
                        last
                    };
                    SetupReply::Stay
                } else if key == Key::Left || key == Key::Char('h') {
                    proof {
                        use_type_invariant(&self.draft);
                    }
                    self.draft.cycle_option(field, -1);
                    SetupReply::Stay
                } else if key == Key::Right || key == Key::Char('l') {
                    proof {
                        use_type_invariant(&self.draft);
                    }
                    self.draft.cycle_option(field, 1);
                    SetupReply::Stay
                } else if key == Key::Backspace {
                    self.draft.backspace(field);
                    SetupReply::Stay
                } else {
                    match key {
                        Key::Char(ch) => {
                            self.draft.push_char(field, ch);
                            SetupReply::Stay
                        },
                        Key::Enter => {
                            match self.draft.build_config() {
                                Ok(config) => SetupReply::CheckInterface(config),
                                Err(e) => {
                                    *status = e.message();
                                    SetupReply::Stay
                                },
                            }
                        },
                        Key::Esc => {
                            let selected = self.draft.mode_index();
                            self.step = SetupStep::Mode { selected };
                            SetupReply::Stay
                        },
                        _ => SetupReply::Stay,
                    }
                }
            },
            SetupStep::Conflict { config } => {
                if up {
                    self.conflict_selected = if self.conflict_selected == 0 {
                        0
                    } else {
                        self.conflict_selected - 1
                    };
                    SetupReply::Stay
                } else if down {
                    self.conflict_selected = if self.conflict_selected < 3 {
                        self.conflict_selected + 1
                    } else {
                        3
                    };
                    SetupReply::Stay
                } else if key == Key::Enter {
                    if self.conflict_selected == 0 {
                        let config = config.duplicate();
                        self.replace_existing = true;
                        self.plan_selected = 0;
                        self.step = SetupStep::Plan { config };
                        SetupReply::Stay
                    } else if self.conflict_selected == 1 {
                        let config = config.duplicate();
                        let mut message = String::from_str("Edit the interface name for '");
                        message.append(config.iface());
                        message.append("' and press Enter again.");
                        self.draft.copy_iface_from_config(&config);
                        self.form_field = self.draft.iface_field_index();
                        self.step = SetupStep::Form;
                        *status = message;
                        SetupReply::Stay
                    } else if self.conflict_selected == 2 {
                        let commands = execute_existing_set_up(config);
                        let iface = String::from_str(config.iface());
                        self.pending = Some(PendingRun::KeepExisting(iface));
                        SetupReply::Run(commands)
                    } else {
                        *status = String::from_str(cancel);
                        SetupReply::Exit
                    }
                } else if key == Key::Esc {
                    self.step = SetupStep::Form;
                    SetupReply::Stay
                } else {
                    SetupReply::Stay
                }
            },
            SetupStep::Plan { config } => {
                if up {
                    self.plan_selected = if self.plan_selected == 0 {
                        0
                    } else {
                        self.plan_selected - 1
                    };
                    SetupReply::Stay
                } else if down {
                    self.plan_selected = if self.plan_selected < 2 {
                        self.plan_selected + 1
                    } else {
                        2
                    };
                    SetupReply::Stay
                } else if key == Key::Enter {
                    if self.plan_selected == 0 {
                        let mut commands = if self.replace_existing {
                            remove_existing_interface(config)
                        } else {
                            Vec::new()
                        };
                        let mut setup = execute_config(config);
                        let ghost first = commands@;
                        commands.append(&mut setup);
                        proof {
                            assert(command_views(commands@) =~= command_views(first)
                                + spec_setup_commands(*config));
                        }
                        let iface = String::from_str(config.iface());
                        self.pending = Some(PendingRun::Execute(iface));
                        SetupReply::Run(commands)
                    } else if self.plan_selected == 1 {
                        self.step = SetupStep::Form;
                        SetupReply::Stay
                    } else {
                        *status = String::from_str(cancel);
                        SetupReply::Exit
                    }
                } else if key == Key::Esc {
                    self.step = SetupStep::Form;
                    SetupReply::Stay
                } else {
                    SetupReply::Stay
                }
            },
        }
    }

    /// Takes in the outcome of installing prerequisites: the prerequisites
    /// still missing afterwards, or the failure.
    pub fn after_install(&mut self, result: Result<Vec<Prerequisite>, String>, status: &mut String)
        ensures
            final(self)@ == spec_after_install(old(self)@, result).0,
            final(status)@ == spec_after_install(old(self)@, result).1,
            selections_bounded(old(self)@) ==> selections_bounded(final(self)@),
    {
        match result {
            Ok(still) => {
                if still.len() == 0 {
                    *status = String::from_str("Installed missing prerequisites.");
                    self.step = SetupStep::Mode { selected: 0 };
                } else {
                    let mut message = String::from_str("Some prerequisites are still missing: ");
                    message.append(join_prerequisites(&still).as_str());
                    *status = message;
                    self.step = SetupStep::Prereqs { missing: still };
                }
            },
            Err(e) => {
                let mut message = String::from_str("Prerequisite installation failed: ");
                message.append(e.as_str());
                *status = message;
            },
        }
    }

    /// Takes in whether the configuration's interface exists: a taken name
    /// leads to the choice of what to do about it, a free one to the
    /// preview.
    pub fn after_interface_check(&mut self, config: CanConfig, exists: bool)
        ensures
            final(self)@ == spec_after_check(old(self)@, config, exists),
            selections_bounded(old(self)@) ==> selections_bounded(final(self)@),
    {
        if exists {
            self.conflict_selected = 0;
            self.step = SetupStep::Conflict { config };
        } else {
            self.plan_selected = 0;
            self.replace_existing = false;
            self.step = SetupStep::Plan { config };
        }
    }

    /// Takes in the outcome of the commands last asked for, and says where
    /// the wizard goes: to a live dump of the interface when it was started
    /// for one and the commands succeeded, else back to the menu.
    pub fn after_run(&mut self, result: Result<(), String>, status: &mut String) -> (res: SetupReply)
        ensures
            final(self)@ == (FlowView { pending: None, ..old(self)@ }),
            res@ == spec_after_run(old(self)@, result, old(status)@).0,
            final(status)@ == spec_after_run(old(self)@, result, old(status)@).1,
            selections_bounded(old(self)@) ==> selections_bounded(final(self)@),
    {
        let pending = self.pending.take();
        match pending {
            Some(PendingRun::KeepExisting(iface)) => match result {
                Ok(()) => {
                    let mut message = String::from_str("Kept existing interface '");
                    message.append(iface.as_str());
                    message.append("' and skipped setup.");
                    *status = message;
                    if self.after_setup_dump {
                        SetupReply::StartDump(iface)
                    } else {
                        SetupReply::Exit
                    }
                },
                Err(e) => {
                    let mut message = String::from_str("Failed while reusing interface: ");
                    message.append(e.as_str());
                    *status = message;
                    SetupReply::Exit
                },
            },
            Some(PendingRun::Execute(iface)) => match result {
                Ok(()) => {
                    let mut message = String::from_str("Set up interface '");
                    message.append(iface.as_str());
                    message.append("' successfully.");
                    *status = message;
                    if self.after_setup_dump {
                        SetupReply::StartDump(iface)
                    } else {
                        SetupReply::Exit
                    }
                },
                Err(e) => {
                    let mut message = String::from_str("Setup failed: ");
                    message.append(e.as_str());
                    *status = message;
                    SetupReply::Exit
                },
            },
            None => SetupReply::Stay,
        }
    }

    /// The help line of the current screen.
    pub fn help_text(&self) -> (res: &'static str)
        ensures
            self@.step is Prereqs ==> res@
                == "Use arrows to choose an action. Enter applies it. Esc returns to the menu."@,
            self@.step is Mode ==> res@
                == "Choose a CAN connection type. Enter continues. Esc returns to the menu."@,
            self@.step is Form ==> res@
                == "Use arrows to move fields. Type to edit text. Left/right changes selections. Enter previews commands."@,
            self@.step is Conflict ==> res@
                == "Choose how to handle the existing interface. Enter applies it. Esc returns to editing."@,
            self@.step is Plan ==> res@
                == "Review the commands. Enter executes or goes back. Esc returns to editing."@,
    {
        match self.step {
            SetupStep::Prereqs { .. } => {
                "Use arrows to choose an action. Enter applies it. Esc returns to the menu."
            },
            SetupStep::Mode { .. } => {
                "Choose a CAN connection type. Enter continues. Esc returns to the menu."
            },
            SetupStep::Form => {
                "Use arrows to move fields. Type to edit text. Left/right changes selections. Enter previews commands."
            },
            SetupStep::Conflict { .. } => {
                "Choose how to handle the existing interface. Enter applies it. Esc returns to editing."
            },
            SetupStep::Plan { .. } => {
                "Review the commands. Enter executes or goes back. Esc returns to editing."
            },
        }
    }

    /// The title of the wizard.
    pub fn title(&self) -> (res: &'static str)
        ensures
            self@.after_setup_dump ==> res@ == "Setup CAN Interface And Dump"@,
            !self@.after_setup_dump ==> res@ == "Setup CAN Interface"@,
    {
        if self.after_setup_dump {
            "Setup CAN Interface And Dump"
        } else {
            "Setup CAN Interface"
        }
    }

    pub fn step(&self) -> (res: &SetupStep)
        ensures
            step_view(*res) == self@.step,
    {
        &self.step
    }

    pub fn draft(&self) -> (res: &SetupDraft)
        ensures
            res@ == self@.draft,
    {
        &self.draft
    }

    pub fn prereq_selected(&self) -> (res: usize)
        ensures
            res == self@.prereq_selected,
    {
        self.prereq_selected
    }

    pub fn conflict_selected(&self) -> (res: usize)
        ensures
            res == self@.conflict_selected,
    {
        self.conflict_selected
    }

    pub fn plan_selected(&self) -> (res: usize)
        ensures
            res == self@.plan_selected,
    {
        self.plan_selected
    }

    pub fn after_setup_dump(&self) -> (res: bool)
        ensures
            res == self@.after_setup_dump,
    {
        self.after_setup_dump
    }

    /// The form's lines, the selected one marked with `> `, the others
    /// indented by two spaces.
    pub fn form_items(&self) -> (res: Vec<String>)
        ensures
            res@.len() == spec_form_lines(self@.draft).len(),
            forall|i: int|
                0 <= i < res@.len() ==> #[trigger] res@[i]@ == (if i == self@.form_field {
                    "> "@
                } else {
                    "  "@
                }) + spec_form_lines(self@.draft)[i],
    {
        let lines = self.draft.form_lines();
        let mut items: Vec<String> = Vec::new();
        let mut i: usize = 0;
        while i < lines.len()
            invariant
                i <= lines.len(),
                lines@.len() == spec_form_lines(self@.draft).len(),
                forall|j: int| 0 <= j < lines@.len() ==> #[trigger] lines@[j]@ == spec_form_lines(self@.draft)[j],
                items@.len() == i,
                forall|j: int|
                    0 <= j < i ==> #[trigger] items@[j]@ == (if j == self@.form_field {
                        "> "@
                    } else {
                        "  "@
                    }) + spec_form_lines(self@.draft)[j],
            decreases lines.len() - i,
        {
            let mut item = if i == self.form_field {
                String::from_str("> ")
            } else {
                String::from_str("  ")
            };
            item.append(lines[i].as_str());
            items.push(item);
            i = i + 1;
        }
        items
    }

    /// The entries of the action list of the current screen; the install
    /// entry is offered only where `apt` is available.
    pub fn action_items(&self, has_apt: bool) -> (res: Vec<&'static str>)
        ensures
            res@.map_values(|s: &'static str| s@) == spec_action_items(self@, has_apt),
    {
        let mut items: Vec<&'static str> = Vec::new();
        match &self.step {
            SetupStep::Prereqs { .. } => {
                if has_apt {
                    items.push("Install missing prerequisites");
                }
                items.push("Continue anyway");
                items.push("Back to menu");
            },
            SetupStep::Conflict { .. } => {
                items.push("Replace existing interface");
                items.push("Edit interface name");
                items.push("Keep existing and skip setup");
                items.push("Back to menu");
            },
            SetupStep::Plan { .. } => {
                if self.after_setup_dump {
                    items.push("Execute now and start dump");
                } else {
                    items.push("Execute now");
                }
                items.push("Back to edit");
                items.push("Back to menu");
            },
            _ => {},
        }
        assert(items@.map_values(|s: &'static str| s@) =~= spec_action_items(self@, has_apt));
        items
    }

    /// What the conflict screen says about the interface that exists;
    /// nothing on the other screens.
    pub fn conflict_text(&self) -> (res: Option<String>)
        ensures
            self@.step matches StepView::Conflict(config) ==> (res matches Some(t) && t@
                == "Interface '"@ + config.spec_iface()
                + "' already exists. Choose whether to replace it, rename the new interface, or keep the current one."@),
            !(self@.step is Conflict) ==> res is None,
    {
        match &self.step {
            SetupStep::Conflict { config } => {
                let mut out = String::from_str("Interface '");
                out.append(config.iface());
                out.append(
                    "' already exists. Choose whether to replace it, rename the new interface, or keep the current one.",
                );
                Some(out)
            },
            _ => None,
        }
    }

    /// The lines of the preview: a warning first when the existing
    /// interface is replaced, then the planned command lines; nothing
    /// outside the preview.
    pub fn plan_preview(&self) -> (res: Vec<String>)
        ensures
            self@.step matches StepView::Plan(config) ==> views_of(res@) == (if self@.replace_existing {
                seq!["Existing interface will be removed first."@]
            } else {
                Seq::empty()
            }) + spec_plan_lines(config),
            !(self@.step is Plan) ==> res@.len() == 0,
    {
        let mut lines: Vec<String> = Vec::new();
        match &self.step {
            SetupStep::Plan { config } => {
                if self.replace_existing {
                    lines.push(String::from_str("Existing interface will be removed first."));
                }
                let ghost head = views_of(lines@);
                let mut planned = plan_lines(config);
                lines.append(&mut planned);
                assert(views_of(lines@) =~= head + spec_plan_lines(*config));
            },
            _ => {},
        }
        lines
    }
}

/// The summary of missing prerequisites: their descriptions, and where
/// `apt` is available the packages that provide them.
pub fn prereq_details(missing: &Vec<Prerequisite>, has_apt: bool) -> (res: String)
    ensures
        has_apt ==> res@ == "Missing prerequisites: "@ + spec_join_descriptions(missing@)
            + "\nPackages to install: "@ + comma_joined(spec_packages(missing@)),
        !has_apt ==> res@ == "Missing prerequisites: "@ + spec_join_descriptions(missing@),
{
    let mut out = String::from_str("Missing prerequisites: ");
    out.append(join_prerequisites(missing).as_str());
    if has_apt {
        out.append("\nPackages to install: ");
        let packages = packages_for_missing_prerequisites(missing);
        let ghost ps = packages@.map_values(|s: &'static str| s@);
        let ghost start = out@;
        let mut i: usize = 0;
        while i < packages.len()
            invariant
                i <= packages.len(),
                ps == packages@.map_values(|s: &'static str| s@),
                out@ == start + comma_joined(ps.take(i as int)),
            decreases packages.len() - i,
        {
            proof {
                assert(ps.take(i + 1).drop_last() =~= ps.take(i as int));
            }
            if i > 0 {
                out.append(", ");
            }
            push_str(&mut out, packages[i]);
            i = i + 1;
            proof {
                if i == 1 {
                    assert(comma_joined(ps.take(1)) == ps[0]);
                }
                assert(out@ =~= start + comma_joined(ps.take(i as int)));
            }
        }
        assert(ps.take(packages.len() as int) =~= ps);
    }
    out
}

/// The commands `cmds` are the removal of the existing interface, when it
/// is replaced, followed by commands that read as the preview lines of
/// `config`, one each.
pub open spec fn runs_preview(cmds: Seq<(Seq<Seq<char>>, bool)>, config: CanConfig, replacing: bool) -> bool {
    let removed: int = if replacing {
        spec_remove_commands(config).len() as int
    } else {
        0
    };
    &&& cmds.len() == removed + spec_plan_lines(config).len()
    &&& cmds.take(removed) == (if replacing {
        spec_remove_commands(config)
    } else {
        Seq::empty()
    })
    &&& forall|i: int|
        0 <= i < spec_plan_lines(config).len() ==> join_words(cmds.skip(removed)[i].0)
            == #[trigger] spec_plan_lines(config)[i]
}

/// Executing from the preview of the commands runs what the preview shows:
/// the removal of the existing interface when it is replaced, then the
/// commands whose lines the preview lists, in that order.
pub proof fn law_plan_runs_preview(v: FlowView, has_apt: bool)
    requires
        v.step is Plan,
        v.plan_selected == 0,
    ensures
        v.step matches StepView::Plan(config) ==> (spec_setup_key(v, Key::Enter, has_apt).1 matches ReplyView::Run(
            cmds,
        ) && runs_preview(cmds, config, v.replace_existing)),
{
    match v.step {
        StepView::Plan(config) => {
            law_preview_matches_commands(config);
            let removal = if v.replace_existing {
                spec_remove_commands(config)
            } else {
                Seq::empty()
            };
            let cmds = removal + spec_setup_commands(config);
            assert(cmds.take(removal.len() as int) =~= removal);
            assert(cmds.skip(removal.len() as int) =~= spec_setup_commands(config));
        },
        _ => {},
    }
}

/// An interface is removed only when it exists and the user chose to
/// replace it: once the check finds no interface for `config`, executing
/// from the preview runs exactly the commands that set `config` up.
pub proof fn law_free_interface_removes_nothing(v: FlowView, config: CanConfig, has_apt: bool)
    ensures
        spec_setup_key(spec_after_check(v, config, false), Key::Enter, has_apt).1
            == ReplyView::Run(spec_setup_commands(config)),
{
    assert(Seq::<(Seq<Seq<char>>, bool)>::empty() + spec_setup_commands(config)
        =~= spec_setup_commands(config));
}

/// Every selection points into its list, the prerequisite actions
/// counting the install entry exactly when `has_apt`: at most three (or
/// two) prerequisite actions, a field of the form being edited, four
/// conflict actions, three plan actions, and three kinds.
pub open spec fn selections_fit(v: FlowView, has_apt: bool) -> bool {
    &&& v.prereq_selected <= (if has_apt {
        2nat
    } else {
        1nat
    })
    &&& v.form_field < spec_form_len(v.draft.mode)
    &&& v.conflict_selected <= 3
    &&& v.plan_selected <= 2
    &&& (v.step matches StepView::Mode(s) ==> s <= 2)
}

/// A new wizard's selections point into their lists.
pub proof fn law_new_flow_selections_fit(
    after_setup_dump: bool,
    missing: Seq<Prerequisite>,
    serial_candidates: Seq<String>,
    has_apt: bool,
)
    ensures
        selections_fit(spec_new_flow(after_setup_dump, missing, serial_candidates), has_apt),
{
}

proof fn lemma_form_edits_keep_mode(d: DraftView, field: int, ch: char)
    ensures
        spec_cycle(d, field, -1).mode == d.mode,
        spec_cycle(d, field, 1).mode == d.mode,
        spec_backspace(d, field).mode == d.mode,
        spec_push_char(d, field, ch).mode == d.mode,
{
}

/// With `has_apt` the same on every call, the keys keep every selection
/// inside its list.
#[verifier::rlimit(40)]
pub proof fn law_keys_keep_selections_fitting(v: FlowView, key: Key, has_apt: bool)
    requires
        selections_fit(v, has_apt),
    ensures
        selections_fit(spec_setup_key(v, key, has_apt).0, has_apt),
{
    match v.step {
        StepView::Form => {
            let ch = match key {
                Key::Char(c) => c,
                _ => ' ',
            };
            lemma_form_edits_keep_mode(v.draft, v.form_field as int, ch);
        },
        StepView::Conflict(config) => {
            assert(spec_copy_iface(v.draft, config).mode == v.draft.mode);
        },
        _ => {},
    }
}

/// The outcomes of the interface check and of an installation keep every
/// selection inside its list.
pub proof fn law_outcomes_keep_selections_fitting(
    v: FlowView,
    has_apt: bool,
    config: CanConfig,
    exists: bool,
    installed: Result<Vec<Prerequisite>, String>,
)
    requires
        selections_fit(v, has_apt),
    ensures
        selections_fit(spec_after_check(v, config, exists), has_apt),
        selections_fit(spec_after_install(v, installed).0, has_apt),
{
}

/// Keeping an interface that exists only brings it up: on the screen about
/// an existing interface, Enter on "Keep existing and skip setup" runs the
/// single command `sudo ip link set up <iface>`, whose failure stops; no
/// command takes the interface down or deletes it.
pub proof fn law_keep_existing_only_brings_up(v: FlowView, has_apt: bool)
    requires
        v.step is Conflict,
        v.conflict_selected == 2,
    ensures
        v.step matches StepView::Conflict(config) ==> spec_setup_key(v, Key::Enter, has_apt).1
            == ReplyView::Run(
            seq![(seq!["sudo"@, "ip"@, "link"@, "set"@, "up"@, config.spec_iface()], true)],
        ),
        spec_setup_key(v, Key::Enter, has_apt).1 matches ReplyView::Run(cmds) ==> forall|i: int, j: int|
            0 <= i < cmds.len() && 0 <= j < cmds[i].0.len() - 1 ==> #[trigger] cmds[i].0[j]
                != "down"@ && cmds[i].0[j] != "delete"@,
{
    reveal_strlit("down");
    reveal_strlit("delete");
    reveal_strlit("sudo");
    reveal_strlit("ip");
    reveal_strlit("link");
    reveal_strlit("set");
    reveal_strlit("up");
    match v.step {
        StepView::Conflict(config) => {
            let w = seq!["sudo"@, "ip"@, "link"@, "set"@, "up"@, config.spec_iface()];
            assert forall|j: int| 0 <= j < w.len() - 1 implies w[j] != "down"@ && w[j]
                != "delete"@ by {
                assert(w[j][0] != 'd');
                assert(("down"@)[0] == 'd' && ("delete"@)[0] == 'd');
            }
            assert(spec_bring_up_commands(config) == seq![(w, true)]);
        },
        _ => {},
    }
}

/// What Enter does about an interface that already exists, by the entry
/// selected: "Replace existing interface" goes to the preview with the
/// removal planned; "Edit interface name" goes back to the form on the
/// interface name field, which holds the name that was taken; "Back to
/// menu" leaves the wizard. None of them runs a command.
pub proof fn law_conflict_choices(v: FlowView, config: CanConfig, has_apt: bool)
    requires
        v.step == StepView::Conflict(config),
        config.mode() == v.draft.mode,
    ensures
        ({
            let (w, r, st) = spec_setup_key(v, Key::Enter, has_apt);
            &&& v.conflict_selected == 0 ==> w.step == StepView::Plan(config) && w.replace_existing
                && r == ReplyView::Stay
            &&& v.conflict_selected == 1 ==> {
                &&& w.step == StepView::Form
                &&& r == ReplyView::Stay
                &&& text_field_label(w.draft.mode, w.form_field as int) == Some(
                    "Interface name: "@,
                )
                &&& spec_form_lines(w.draft)[w.form_field as int] == "Interface name: "@
                    + config.spec_iface()
            }
            &&& v.conflict_selected >= 3 ==> r == ReplyView::Exit && st == Some(cancel_text())
        }),
{
}

/// What Enter does on the preview of the commands, by the entry selected:
/// the first runs the commands, "Back to edit" returns to the form without
/// running anything, "Back to menu" leaves the wizard without running
/// anything.
pub proof fn law_plan_choices(v: FlowView, config: CanConfig, has_apt: bool)
    requires
        v.step == StepView::Plan(config),
    ensures
        ({
            let (w, r, st) = spec_setup_key(v, Key::Enter, has_apt);
            &&& v.plan_selected == 0 ==> r is Run
            &&& v.plan_selected == 1 ==> w.step == StepView::Form && r == ReplyView::Stay
            &&& v.plan_selected >= 2 ==> r == ReplyView::Exit && st == Some(cancel_text())
        }),
{
}

/// Enter on the choice of connection kind opens the form of the kind at
/// the selected position of "Native", "SLCAN", "Virtual", on its first
/// field, with nothing planned to be removed.
pub proof fn law_mode_choice_opens_its_form(v: FlowView, selected: nat, has_apt: bool)
    requires
        v.step == StepView::Mode(selected),
        selected <= 2,
    ensures
        ({
            let w = spec_setup_key(v, Key::Enter, has_apt).0;
            &&& w.step == StepView::Form
            &&& w.form_field == 0
            &&& !w.replace_existing
            &&& w.draft.mode == seq![CanMode::Native, CanMode::Slcan, CanMode::Virtual][selected as int]
        }),
{
}

/// What Enter does on the screen of missing prerequisites, by the entry
/// selected among `action_items`: "Install missing prerequisites" (offered
/// only with apt) asks to install exactly the missing ones, "Continue
/// anyway" goes on to the choice of connection kind, and "Back to menu"
/// leaves the wizard.
pub proof fn law_prerequisite_choices(v: FlowView, missing: Seq<Prerequisite>, has_apt: bool)
    requires
        v.step == StepView::Prereqs(missing),
        selections_fit(v, has_apt),
    ensures
        ({
            let (w, r, st) = spec_setup_key(v, Key::Enter, has_apt);
            let entry = spec_action_items(v, has_apt)[v.prereq_selected as int];
            &&& v.prereq_selected < spec_action_items(v, has_apt).len()
            &&& entry == "Install missing prerequisites"@ ==> r == ReplyView::Install(missing)
            &&& entry == "Continue anyway"@ ==> w.step == StepView::Mode(0) && r == ReplyView::Stay
            &&& entry == "Back to menu"@ ==> r == ReplyView::Exit && st == Some(cancel_text())
        }),
{
    reveal_strlit("Install missing prerequisites");
    reveal_strlit("Continue anyway");
    reveal_strlit("Back to menu");
    assert("Install missing prerequisites"@[0] == 'I');
    assert("Continue anyway"@[0] == 'C');
    assert("Back to menu"@[0] == 'B');
}

} // verus!
