//! The main menu of the terminal interface, and which screen a key goes to.
use vstd::prelude::*;

use crate::setup::prereqs::Prerequisite;
use crate::ui::draft::{spec_built, EmptyField, Key};
use crate::ui::dump_flow::{
    keep_last, spec_dump_key, spec_new_dump, spec_stream_dump, DumpFlow, DumpReply, DumpStepView,
    DumpView, FRAME_HISTORY,
};
use crate::ui::setup_flow::{
    builds_config, spec_after_check, spec_after_install, spec_after_run, spec_new_flow,
    spec_setup_key, status_after, FlowView, ReplyView, SetupFlow, SetupReply,
};

verus! {

/// The actions the menu offers.
#[derive(Debug, Clone, Copy, PartialEq, Eq, Structural)]
pub enum ToolAction {
    Setup,
    Dump,
    SetupAndDump,
    Send,
}

impl ToolAction {
    /// The menu entry of this action.
    pub fn text(&self) -> (res: &'static str)
        ensures
            res@ == spec_action_text(*self),
    {
        match self {
            ToolAction::Setup => "Create or manage a CAN interface",
            ToolAction::Dump => "Start pretty CAN dump",
            ToolAction::SetupAndDump => "Create/manage CAN interface then start dump",
            ToolAction::Send => "Send CAN frames",
        }
    }
}

pub open spec fn spec_action_text(a: ToolAction) -> Seq<char> {
    match a {
        ToolAction::Setup => "Create or manage a CAN interface"@,
        ToolAction::Dump => "Start pretty CAN dump"@,
        ToolAction::SetupAndDump => "Create/manage CAN interface then start dump"@,
        ToolAction::Send => "Send CAN frames"@,
    }
}

/// The actions in menu order.
pub open spec fn spec_actions() -> Seq<ToolAction> {
    seq![ToolAction::Setup, ToolAction::Dump, ToolAction::SetupAndDump, ToolAction::Send]
}

/// The actions in menu order.
pub fn actions() -> (res: Vec<ToolAction>)
    ensures
        res@ == spec_actions(),
{
    let res = vec![ToolAction::Setup, ToolAction::Dump, ToolAction::SetupAndDump, ToolAction::Send];
    assert(res@ =~= spec_actions());
    res
}

/// What the caller does after a key.
pub enum AppReply {
    Stay,
    /// Leave the interface.
    Quit,
    /// Gather the missing prerequisites and serial devices, then
    /// `open_setup` with this `after_setup_dump`.
    OpenSetup(bool),
    /// Detect the CAN interfaces, then `open_dump`.
    OpenDump,
    /// Run the action with the terminal handed back, then `finish_action`.
    RunAction(ToolAction),
    /// What the wizard asked for.
    Setup(SetupReply),
    /// What the dump asked for.
    Dump(DumpReply),
}

/// The menu, and the wizard or dump shown over it.
pub struct App {
    selected: usize,
    status: String,
    setup: Option<SetupFlow>,
    dump: Option<DumpFlow>,
}

pub struct AppView {
    pub selected: nat,
    pub status: Seq<char>,
    pub setup: Option<FlowView>,
    pub dump: Option<DumpView>,
}

/// The menu with the selection on the next action, wrapping round.
pub open spec fn spec_next(v: AppView) -> AppView {
    AppView { selected: ((v.selected + 1) % 4) as nat, ..v }
}

/// The menu with the selection on the previous action, wrapping round.
pub open spec fn spec_previous(v: AppView) -> AppView {
    AppView { selected: if v.selected == 0 { 3 } else { (v.selected - 1) as nat }, ..v }
}

impl View for App {
    type V = AppView;

    closed spec fn view(&self) -> AppView {
        AppView {
            selected: self.selected as nat,
            status: self.status@,
            setup: match self.setup {
                Some(f) => Some(f@),
                None => None,
            },
            dump: match self.dump {
                Some(d) => Some(d@),
                None => None,
            },
        }
    }
}

/// Whether a wizard reply closes the wizard.
pub open spec fn closes_setup(r: ReplyView) -> bool {
    r is Exit || r is StartDump
}

/// The menu key's effect: the selection moves round the four actions.
pub open spec fn spec_menu_key(v: AppView, key: Key) -> (AppView, AppReply) {
    if key == Key::Up || key == Key::Char('k') {
        (spec_previous(v), AppReply::Stay)
    } else if key == Key::Down || key == Key::Char('j') {
        (spec_next(v), AppReply::Stay)
    } else if key == Key::Enter {
        let action = spec_actions()[v.selected as int];
        if action == ToolAction::Setup || action == ToolAction::SetupAndDump {
            (v, AppReply::OpenSetup(action == ToolAction::SetupAndDump))
        } else if action == ToolAction::Dump {
            (v, AppReply::OpenDump)
        } else {
            (v, AppReply::RunAction(action))
        }
    } else if key == Key::Esc || key == Key::Char('q') {
        (v, AppReply::Quit)
    } else {
        (v, AppReply::Stay)
    }
}

impl App {
    #[verifier::type_invariant]
    closed spec fn selection_in_menu(&self) -> bool {
        self.selected < 4
    }

    /// The menu with the first action selected and a hint in the status line.
    pub fn new() -> (res: Self)
        ensures
            res@.selected == 0,
            res@.status == "Press Enter to run an action, q to quit."@,
            res@.setup is None,
            res@.dump is None,
    {
        App {
            selected: 0,
            status: String::from_str("Press Enter to run an action, q to quit."),
            setup: None,
            dump: None,
        }
    }

    /// Moves the selection to the next action, wrapping round.
    pub fn next(&mut self)
        ensures
            final(self)@ == spec_next(old(self)@),
    {
        proof {
            use_type_invariant(&*self);
        }
        self.selected = (self.selected + 1) % 4;
    }

    /// Moves the selection to the previous action, wrapping round.
    pub fn previous(&mut self)
        ensures
            final(self)@ == spec_previous(old(self)@),
    {
        proof {
            use_type_invariant(&*self);
        }
        self.selected = if self.selected == 0 { 3 } else { self.selected - 1 };
    }

    /// The action under the selection.
    pub fn selected_action(&self) -> (res: ToolAction)
        ensures
            res == spec_actions()[self@.selected as int],
    {
        proof {
            use_type_invariant(self);
        }
        actions()[self.selected]
    }

    /// Handles a key: the dump gets it when it is shown, else the wizard
    /// when it is shown, else the menu. A dump or wizard that asks to be
    /// left is closed; a blank interface name in the dump ends with an
    /// error and closes the dump.
    pub fn handle_key(&mut self, key: Key, has_apt: bool) -> (res: Result<AppReply, EmptyField>)
        ensures
            old(self)@.dump matches Some(d) ==> {
                let (nd, r, st) = spec_dump_key(d, key);
                &&& final(self)@.selected == old(self)@.selected
                &&& final(self)@.setup == old(self)@.setup
                &&& final(self)@.status == match st {
                    Some(s) => s,
                    None => old(self)@.status,
                }
                &&& match r {
                    Ok(rv) => (res matches Ok(AppReply::Dump(reply)) && reply@ == rv)
                        && final(self)@.dump == if rv is Exit { None } else { Some(nd) },
                    Err(e) => res == Err::<AppReply, EmptyField>(e) && final(self)@.dump is None,
                }
            },
            old(self)@.dump is None ==> (old(self)@.setup matches Some(f) ==> {
                &&& final(self)@.selected == old(self)@.selected
                &&& final(self)@.dump is None
                &&& !builds_config(f, key) ==> {
                    let (nf, r, st) = spec_setup_key(f, key, has_apt);
                    &&& final(self)@.status == status_after(old(self)@.status, st)
                    &&& res matches Ok(AppReply::Setup(reply)) && reply@ == r
                    &&& final(self)@.setup == if closes_setup(r) { None } else { Some(nf) }
                }
                &&& builds_config(f, key) ==> {
                    &&& final(self)@.status == old(self)@.status
                    &&& final(self)@.setup == old(self)@.setup
                    &&& res matches Ok(AppReply::Setup(SetupReply::CheckInterface(config)))
                    &&& spec_built(f.draft, config)
                }
            }),
            old(self)@.dump is None && old(self)@.setup is None ==> {
                let (nv, r) = spec_menu_key(old(self)@, key);
                &&& final(self)@ == nv
                &&& res matches Ok(reply) && reply == r
            },
    {
        proof {
            use_type_invariant(&*self);
        }
        if self.dump.is_some() {
            let mut slot: Option<DumpFlow> = None;
            std::mem::swap(&mut slot, &mut self.dump);
            let mut flow = slot.unwrap();
            let mut status = String::new();
            std::mem::swap(&mut status, &mut self.status);
            let result = flow.handle_key(key, &mut status);
            self.status = status;
            match result {
                Ok(reply) => {
                    match reply {
                        DumpReply::Exit => {},
                        _ => {
                            self.dump = Some(flow);
                        },
                    }
                    Ok(AppReply::Dump(reply))
                },
                Err(e) => Err(e),
            }
        } else if self.setup.is_some() {
            let mut slot: Option<SetupFlow> = None;
            std::mem::swap(&mut slot, &mut self.setup);
            let mut flow = slot.unwrap();
            let mut status = String::new();
            std::mem::swap(&mut status, &mut self.status);
            let reply = flow.handle_key(key, has_apt, &mut status);
            self.status = status;
            match reply {
                SetupReply::Exit => {},
                SetupReply::StartDump(_) => {},
                _ => {
                    self.setup = Some(flow);
                },
            }
            Ok(AppReply::Setup(reply))
        } else {
            if key == Key::Up || key == Key::Char('k') {
                self.previous();
                Ok(AppReply::Stay)
            } else if key == Key::Down || key == Key::Char('j') {
                self.next();
                Ok(AppReply::Stay)
            } else if key == Key::Enter {
                let action = self.selected_action();
                if action == ToolAction::Setup || action == ToolAction::SetupAndDump {
                    Ok(AppReply::OpenSetup(action == ToolAction::SetupAndDump))
                } else if action == ToolAction::Dump {
                    Ok(AppReply::OpenDump)
                } else {
                    Ok(AppReply::RunAction(action))
                }
            } else if key == Key::Esc || key == Key::Char('q') {
                Ok(AppReply::Quit)
            } else {
                Ok(AppReply::Stay)
            }
        }
    }

    /// Shows the set-up wizard.
    pub fn open_setup(&mut self, after_setup_dump: bool, missing: Vec<Prerequisite>, serial_candidates: Vec<String>)
        ensures
            final(self)@ == (AppView {
                setup: Some(spec_new_flow(after_setup_dump, missing@, serial_candidates@)),
                ..old(self)@
            }),
    {
        proof {
            use_type_invariant(&*self);
        }
        self.setup = Some(SetupFlow::new(after_setup_dump, missing, serial_candidates));
    }

    /// Shows the interface choice of the dump.
    pub fn open_dump(&mut self, detected: Vec<String>)
        ensures
            final(self)@ == (AppView { dump: Some(spec_new_dump(detected@)), ..old(self)@ }),
    {
        proof {
            use_type_invariant(&*self);
        }
        self.dump = Some(DumpFlow::new(detected));
    }

    /// Shows the stream of an interface that was opened.
    pub fn open_stream(&mut self, iface: String)
        ensures
            final(self)@ == (AppView { dump: Some(spec_stream_dump(iface@)), ..old(self)@ }),
    {
        proof {
            use_type_invariant(&*self);
        }
        self.dump = Some(DumpFlow::with_interface(iface));
    }

    /// Switches the dump to the stream of `iface`, once it is open.
    pub fn dump_start_stream(&mut self, iface: String)
        ensures
            final(self)@.selected == old(self)@.selected,
            final(self)@.setup == old(self)@.setup,
            old(self)@.dump is None ==> final(self)@ == old(self)@,
            old(self)@.dump matches Some(d) ==> final(self)@.dump == Some(DumpView {
                step: DumpStepView::Stream(iface@),
                frames: Seq::empty(),
                ..d
            }) && final(self)@.status == "Started CAN dump on '"@ + iface@ + "'."@,
    {
        proof {
            use_type_invariant(&*self);
        }
        let mut slot: Option<DumpFlow> = None;
        std::mem::swap(&mut slot, &mut self.dump);
        match slot {
            Some(mut flow) => {
                let mut status = String::new();
                std::mem::swap(&mut status, &mut self.status);
                flow.start_stream(iface, &mut status);
                self.status = status;
                self.dump = Some(flow);
            },
            None => {},
        }
    }

    /// Records the outcome of an action run from the menu.
    pub fn finish_action(&mut self, action: ToolAction, result: Result<(), String>)
        ensures
            final(self)@.selected == old(self)@.selected,
            final(self)@.setup == old(self)@.setup,
            final(self)@.dump == old(self)@.dump,
            result is Ok ==> final(self)@.status == "Finished: "@ + spec_action_text(action),
            result matches Err(e) ==> final(self)@.status == "Last action failed: "@ + e@,
    {
        proof {
            use_type_invariant(&*self);
        }
        let message = match result {
            Ok(()) => {
                let mut m = String::from_str("Finished: ");
                m.append(action.text());
                m
            },
            Err(e) => {
                let mut m = String::from_str("Last action failed: ");
                m.append(e.as_str());
                m
            },
        };
        self.status = message;
    }

    /// Passes the outcome of installing prerequisites to the wizard.
    pub fn setup_after_install(&mut self, result: Result<Vec<Prerequisite>, String>)
        ensures
            final(self)@.selected == old(self)@.selected,
            final(self)@.dump == old(self)@.dump,
            old(self)@.setup is None ==> final(self)@ == old(self)@,
            old(self)@.setup matches Some(f) ==> final(self)@.setup == Some(
                spec_after_install(f, result).0,
            ) && final(self)@.status == spec_after_install(f, result).1,
    {
        proof {
            use_type_invariant(&*self);
        }
        let mut slot: Option<SetupFlow> = None;
        std::mem::swap(&mut slot, &mut self.setup);
        match slot {
            Some(mut flow) => {
                let mut status = String::new();
                std::mem::swap(&mut status, &mut self.status);
                flow.after_install(result, &mut status);
                self.status = status;
                self.setup = Some(flow);
            },
            None => {},
        }
    }

    /// Passes whether the configuration's interface exists to the wizard.
    pub fn setup_after_interface_check(&mut self, config: crate::setup::models::CanConfig, exists: bool)
        ensures
            final(self)@.selected == old(self)@.selected,
            final(self)@.dump == old(self)@.dump,
            final(self)@.status == old(self)@.status,
            old(self)@.setup is None ==> final(self)@ == old(self)@,
            old(self)@.setup matches Some(f) ==> final(self)@.setup == Some(
                spec_after_check(f, config, exists),
            ),
    {
        proof {
            use_type_invariant(&*self);
        }
        let mut slot: Option<SetupFlow> = None;
        std::mem::swap(&mut slot, &mut self.setup);
        match slot {
            Some(mut flow) => {
                flow.after_interface_check(config, exists);
                self.setup = Some(flow);
            },
            None => {},
        }
    }

    /// Passes the outcome of the wizard's commands to it; the wizard closes
    /// when it says so.
    pub fn setup_after_run(&mut self, result: Result<(), String>) -> (res: SetupReply)
        ensures
            final(self)@.selected == old(self)@.selected,
            final(self)@.dump == old(self)@.dump,
            old(self)@.setup is None ==> final(self)@ == old(self)@ && res@ == ReplyView::Stay,
            old(self)@.setup matches Some(f) ==> {
                let (r, st) = spec_after_run(f, result, old(self)@.status);
                &&& res@ == r
                &&& final(self)@.status == st
                &&& final(self)@.setup == if closes_setup(r) {
                    None
                } else {
                    Some(FlowView { pending: None, ..f })
                }
            },
    {
        proof {
            use_type_invariant(&*self);
        }
        let mut slot: Option<SetupFlow> = None;
        std::mem::swap(&mut slot, &mut self.setup);
        match slot {
            Some(mut flow) => {
                let mut status = String::new();
                std::mem::swap(&mut status, &mut self.status);
                let reply = flow.after_run(result, &mut status);
                self.status = status;
                match reply {
                    SetupReply::Exit => {},
                    SetupReply::StartDump(_) => {},
                    _ => {
                        self.setup = Some(flow);
                    },
                }
                reply
            },
            None => SetupReply::Stay,
        }
    }

    /// Passes the line of a received frame to the dump.
    pub fn push_frame_line(&mut self, line: String)
        ensures
            final(self)@.selected == old(self)@.selected,
            final(self)@.setup == old(self)@.setup,
            final(self)@.status == old(self)@.status,
            old(self)@.dump is None ==> final(self)@.dump is None,
            old(self)@.dump matches Some(d) ==> final(self)@.dump == Some(DumpView {
                frames: keep_last(d.frames.push(line@), FRAME_HISTORY as nat),
                ..d
            }),
    {
        proof {
            use_type_invariant(&*self);
        }
        let mut slot: Option<DumpFlow> = None;
        std::mem::swap(&mut slot, &mut self.dump);
        match slot {
            Some(mut flow) => {
                flow.push_frame_line(line);
                self.dump = Some(flow);
            },
            None => {},
        }
    }

    /// Records a failure of the dump's stream and closes it.
    pub fn fail_dump(&mut self, message: String)
        ensures
            final(self)@.selected == old(self)@.selected,
            final(self)@.setup == old(self)@.setup,
            final(self)@.dump is None,
            final(self)@.status == "CAN dump failed: "@ + message@,
    {
        proof {
            use_type_invariant(&*self);
        }
        let mut m = String::from_str("CAN dump failed: ");
        m.append(message.as_str());
        self.status = m;
        self.dump = None;
    }

    pub fn status(&self) -> (res: &str)
        ensures
            res@ == self@.status,
    {
        self.status.as_str()
    }

    pub fn selected(&self) -> (res: usize)
        ensures
            res == self@.selected,
    {
        self.selected
    }

    pub fn setup(&self) -> (res: &Option<SetupFlow>)
        ensures
            match *res {
                Some(f) => self@.setup == Some(f@),
                None => self@.setup is None,
            },
    {
        &self.setup
    }

    pub fn dump(&self) -> (res: &Option<DumpFlow>)
        ensures
            match *res {
                Some(d) => self@.dump == Some(d@),
                None => self@.dump is None,
            },
    {
        &self.dump
    }
}

/// Moving the menu selection to the next action and back, or to the previous
/// action and back, leaves the menu as it was.
pub proof fn law_next_previous(v: AppView)
    requires
        v.selected < 4,
    ensures
        spec_previous(spec_next(v)) == v,
        spec_next(spec_previous(v)) == v,
{
}

} // verus!
