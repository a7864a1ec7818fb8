//! The live dump screen: choosing an interface, then the stream of frames.
use vstd::prelude::*;

use crate::text::{is_control, is_control_char, same_text, trim, views_of};
use crate::ui::draft::{required_text, EmptyField, Key};

verus! {

/// The most frames the stream keeps.
pub const FRAME_HISTORY: usize = 500;

/// The entry of the interface list that lets the user type a name.
pub open spec fn manual_entry() -> Seq<char> {
    "Enter manually"@
}

/// The screen the dump shows.
pub enum DumpStep {
    /// Choosing among the detected interfaces, the last entry being
    /// `Enter manually`.
    Select { ifaces: Vec<String> },
    /// Streaming the frames of an interface.
    Stream { iface: String },
}

/// What the caller does after a key.
pub enum DumpReply {
    Stay,
    /// Leave the dump for the menu.
    Exit,
    /// Open the interface, then report with `start_stream`.
    StartStream(String),
}

pub enum DumpStepView {
    Select(Seq<Seq<char>>),
    Stream(Seq<char>),
}

pub enum DumpReplyView {
    Stay,
    Exit,
    StartStream(Seq<char>),
}

impl View for DumpReply {
    type V = DumpReplyView;

    open spec fn view(&self) -> DumpReplyView {
        match self {
            DumpReply::Stay => DumpReplyView::Stay,
            DumpReply::Exit => DumpReplyView::Exit,
            DumpReply::StartStream(s) => DumpReplyView::StartStream(s@),
        }
    }
}

/// The dump screen.
pub struct DumpFlow {
    step: DumpStep,
    selected: usize,
    manual_iface: String,
    frames: Vec<String>,
}

pub struct DumpView {
    pub step: DumpStepView,
    pub selected: nat,
    pub manual_iface: Seq<char>,
    pub frames: Seq<Seq<char>>,
}

impl View for DumpFlow {
    type V = DumpView;

    closed spec fn view(&self) -> DumpView {
        DumpView {
            step: match self.step {
                DumpStep::Select { ifaces } => DumpStepView::Select(views_of(ifaces@)),
                DumpStep::Stream { iface } => DumpStepView::Stream(iface@),
            },
            selected: self.selected as nat,
            manual_iface: self.manual_iface@,
            frames: views_of(self.frames@),
        }
    }
}

/// The last `n` elements of `s` (all of `s` when it is shorter).
pub open spec fn keep_last<A>(s: Seq<A>, n: nat) -> Seq<A> {
    if s.len() <= n {
        s
    } else {
        s.skip(s.len() - n)
    }
}

/// Whether the entry at `selected` is the one for typing a name.
pub open spec fn manual_selected(ifaces: Seq<Seq<char>>, selected: nat) -> bool {
    selected < ifaces.len() && ifaces[selected as int] == manual_entry()
}

/// The interface choice over the detected interfaces and the manual
/// entry, nothing typed, no frames.
pub open spec fn spec_new_dump(detected: Seq<String>) -> DumpView {
    DumpView {
        step: DumpStepView::Select(views_of(detected).push(manual_entry())),
        selected: 0,
        manual_iface: Seq::empty(),
        frames: Seq::empty(),
    }
}

/// The stream of `iface`, with no frames yet.
pub open spec fn spec_stream_dump(iface: Seq<char>) -> DumpView {
    DumpView {
        step: DumpStepView::Stream(iface),
        selected: 0,
        manual_iface: iface,
        frames: Seq::empty(),
    }
}

/// An entry of the interface list as shown: the manual entry followed by
/// the name typed so far.
pub open spec fn select_item(iface: Seq<char>, manual_iface: Seq<char>) -> Seq<char> {
    if iface == manual_entry() {
        iface + ": "@ + manual_iface
    } else {
        iface
    }
}

/// What a key does: the screen after it, the reply (or the blank-name
/// error), and the new status line (`None` leaves it as it was).
pub open spec fn spec_dump_key(v: DumpView, key: Key) -> (
    DumpView,
    Result<DumpReplyView, EmptyField>,
    Option<Seq<char>>,
) {
    match v.step {
        DumpStepView::Select(ifaces) => {
            if key == Key::Up || key == Key::Char('k') {
                let selected: nat = if v.selected == 0 {
                    0
                } else {
                    (v.selected - 1) as nat
                };
                (DumpView { selected, ..v }, Ok(DumpReplyView::Stay), None)
            } else if key == Key::Down || key == Key::Char('j') {
                let last: nat = if ifaces.len() == 0 { 0 } else { (ifaces.len() - 1) as nat };
                let selected: nat = if v.selected + 1 <= last {
                    v.selected + 1
                } else {
                    last
                };
                (DumpView { selected, ..v }, Ok(DumpReplyView::Stay), None)
            } else {
                match key {
                    Key::Enter => {
                        let name = if manual_selected(ifaces, v.selected) {
                            trim(v.manual_iface)
                        } else {
                            ifaces[v.selected as int]
                        };
                        if trim(name).len() == 0 {
                            (v, Err(EmptyField { label: "CAN interface name" }), None)
                        } else {
                            (v, Ok(DumpReplyView::StartStream(trim(name))), None)
                        }
                    },
                    Key::Backspace => if manual_selected(ifaces, v.selected) && v.manual_iface.len() > 0 {
                        (DumpView { manual_iface: v.manual_iface.drop_last(), ..v }, Ok(DumpReplyView::Stay), None)
                    } else {
                        (v, Ok(DumpReplyView::Stay), None)
                    },
                    Key::Char(ch) => if manual_selected(ifaces, v.selected) && !is_control_char(ch) {
                        (DumpView { manual_iface: v.manual_iface.push(ch), ..v }, Ok(DumpReplyView::Stay), None)
                    } else {
                        (v, Ok(DumpReplyView::Stay), None)
                    },
                    Key::Esc => (v, Ok(DumpReplyView::Exit), Some("Cancelled dump and returned to the menu."@)),
                    _ => (v, Ok(DumpReplyView::Stay), None),
                }
            }
        },
        DumpStepView::Stream(_) => {
            if key == Key::Esc || key == Key::Char('q') {
                (v, Ok(DumpReplyView::Exit), Some("Stopped CAN dump and returned to the menu."@))
            } else {
                (v, Ok(DumpReplyView::Stay), None)
            }
        },
    }
}

impl DumpFlow {
    #[verifier::type_invariant]
    closed spec fn well_formed(&self) -> bool {
        &&& (self.step matches DumpStep::Select { ifaces } ==> self.selected < ifaces@.len())
        &&& self.frames@.len() <= FRAME_HISTORY
    }

    /// The interface choice, over the detected interfaces and a last entry
    /// for typing a name.
    pub fn new(detected: Vec<String>) -> (res: Self)
        ensures
            res@ == spec_new_dump(detected@),
    {
        let mut ifaces = detected;
        let ghost before = ifaces@;
        ifaces.push(String::from_str("Enter manually"));
        assert(views_of(ifaces@) =~= views_of(before).push(manual_entry()));
        let res = DumpFlow {
            step: DumpStep::Select { ifaces },
            selected: 0,
            manual_iface: String::new(),
            frames: Vec::new(),
        };
        assert(res@.manual_iface =~= Seq::<char>::empty());
        assert(res@.frames =~= Seq::<Seq<char>>::empty());
        res
    }

    /// The stream of an interface that was opened already.
    pub fn with_interface(iface: String) -> (res: Self)
        ensures
            res@ == spec_stream_dump(iface@),
    {
        let manual_iface = iface.clone();
        let res = DumpFlow { step: DumpStep::Stream { iface }, selected: 0, manual_iface, frames: Vec::new() };
        assert(res@.frames =~= Seq::<Seq<char>>::empty());
        res
    }

    /// Handles a key.
    pub fn handle_key(&mut self, key: Key, status: &mut String) -> (res: Result<DumpReply, EmptyField>)
        ensures
            final(self)@ == spec_dump_key(old(self)@, key).0,
            match (res, spec_dump_key(old(self)@, key).1) {
                (Ok(r), Ok(s)) => r@ == s,
                (Err(e), Err(f)) => e == f,
                _ => false,
            },
            final(status)@ == match spec_dump_key(old(self)@, key).2 {
                Some(s) => s,
                None => old(status)@,
            },
    {
        proof {
            use_type_invariant(&*self);
        }
        match &self.step {
            DumpStep::Select { ifaces } => {
                let on_manual = self.selected < ifaces.len() && same_text(
                    ifaces[self.selected].as_str(),
                    "Enter manually",
                );
                if key == Key::Up || key == Key::Char('k') {
                    self.selected = if self.selected == 0 { 0 } else { self.selected - 1 };
                    Ok(DumpReply::Stay)
                } else if key == Key::Down || key == Key::Char('j') {
                    let last = if ifaces.len() == 0 { 0 } else { ifaces.len() - 1 };
                    self.selected = if self.selected < last { self.selected + 1 } else { last };
                    Ok(DumpReply::Stay)
                } else {
                    match key {
                        Key::Enter => {
                            let name = if on_manual {
                                let t = crate::text::trim_chars(&crate::text::chars_of(self.manual_iface.as_str()));
                                crate::text::string_of(&t)
                            } else {
                                ifaces[self.selected].clone()
                            };
                            match required_text("CAN interface name", name.as_str()) {
                                Ok(iface) => Ok(DumpReply::StartStream(iface)),
                                Err(e) => Err(e),
                            }
                        },
                        Key::Backspace => {
                            if on_manual {
                                let mut m = String::new();
                                std::mem::swap(&mut m, &mut self.manual_iface);
                                m.pop();
                                self.manual_iface = m;
                            }
                            Ok(DumpReply::Stay)
                        },
                        Key::Char(ch) => {
                            if on_manual && !is_control(ch) {
                                let mut m = String::new();
                                std::mem::swap(&mut m, &mut self.manual_iface);
                                m.push(ch);
                                self.manual_iface = m;
                            }
                            Ok(DumpReply::Stay)
                        },
                        Key::Esc => {
                            *status = String::from_str("Cancelled dump and returned to the menu.");
                            Ok(DumpReply::Exit)
                        },
                        _ => Ok(DumpReply::Stay),
                    }
                }
            },
            DumpStep::Stream { .. } => {
                if key == Key::Esc || key == Key::Char('q') {
                    *status = String::from_str("Stopped CAN dump and returned to the menu.");
                    Ok(DumpReply::Exit)
                } else {
                    Ok(DumpReply::Stay)
                }
            },
        }
    }

    /// Switches to the stream of `iface` once it is open: the frame
    /// history starts empty.
    pub fn start_stream(&mut self, iface: String, status: &mut String)
        ensures
            final(self)@ == (DumpView { step: DumpStepView::Stream(iface@), frames: Seq::empty(), ..old(self)@ }),
            final(status)@ == "Started CAN dump on '"@ + iface@ + "'."@,
    {
        proof {
            use_type_invariant(&*self);
        }
        let mut message = String::from_str("Started CAN dump on '");
        message.append(iface.as_str());
        message.append("'.");
        *status = message;
        self.frames = Vec::new();
        self.step = DumpStep::Stream { iface };
        assert(self@.frames =~= Seq::<Seq<char>>::empty());
    }

    /// Adds a received frame's line; only the last 500 lines are kept.
    pub fn push_frame_line(&mut self, line: String)
        ensures
            final(self)@ == (DumpView {
                frames: keep_last(old(self)@.frames.push(line@), FRAME_HISTORY as nat),
                ..old(self)@
            }),
    {
        proof {
            use_type_invariant(&*self);
        }
        let mut frames: Vec<String> = Vec::new();
        std::mem::swap(&mut frames, &mut self.frames);
        let ghost before = frames@;
        frames.push(line);
        let ghost pushed = frames@;
        if frames.len() > FRAME_HISTORY {
            let extra = frames.len() - FRAME_HISTORY;
            let mut k: usize = 0;
            while k < extra
                invariant
                    k <= extra,
                    extra == pushed.len() - FRAME_HISTORY,
                    frames@ == pushed.skip(k as int),
                decreases extra - k,
            {
                frames.remove(0);
                k = k + 1;
                assert(frames@ =~= pushed.skip(k as int));
            }
        }
        proof {
            assert(views_of(frames@) =~= keep_last(views_of(before).push(line@), FRAME_HISTORY as nat));
        }
        self.frames = frames;
    }

    /// The text of the stream's frame area for `height` visible lines: the
    /// newest lines, oldest first, or a waiting message.
    pub fn visible_frames(&self, height: usize) -> (res: String)
        ensures
            self@.frames.len() == 0 ==> res@ == "Waiting for CAN frames..."@,
            self@.frames.len() > 0 ==> res@ == join_lines(keep_last(self@.frames, height as nat)),
    {
        if self.frames.len() == 0 {
            return String::from_str("Waiting for CAN frames...");
        }
        let start = if self.frames.len() > height { self.frames.len() - height } else { 0 };
        let ghost shown = keep_last(self@.frames, height as nat);
        assert(shown =~= views_of(self.frames@).skip(start as int));
        let mut out = String::new();
        let mut i = start;
        while i < self.frames.len()
            invariant
                start <= i <= self.frames.len(),
                shown == views_of(self.frames@).skip(start as int),
                out@ == join_lines(shown.take(i - start)),
            decreases self.frames.len() - i,
        {
            proof {
                assert(shown.take(i - start + 1).drop_last() =~= shown.take(i - start));
                assert(shown[i - start] == self.frames@[i as int]@);
            }
            if i > start {
                out.push('\n');
            }
            out.append(self.frames[i].as_str());
            i = i + 1;
            proof {
                if i - start == 1 {
                    assert(join_lines(shown.take(1)) == shown[0]);
                }
                assert(out@ =~= join_lines(shown.take(i - start)));
            }
        }
        assert(shown.take(self.frames.len() - start) =~= shown);
        out
    }

    /// The entries of the interface list as shown: the typed name after the
    /// manual entry.
    pub fn select_items(&self) -> (res: Vec<String>)
        ensures
            self@.step matches DumpStepView::Select(ifaces) ==> res@.len() == ifaces.len()
                && forall|i: int|
                0 <= i < ifaces.len() ==> #[trigger] res@[i]@ == select_item(
                    ifaces[i],
                    self@.manual_iface,
                ),
            self@.step is Stream ==> res@.len() == 0,
    {
        let mut items: Vec<String> = Vec::new();
        match &self.step {
            DumpStep::Select { ifaces } => {
                let mut i: usize = 0;
                while i < ifaces.len()
                    invariant
                        i <= ifaces.len(),
                        items@.len() == i,
                        forall|j: int|
                            0 <= j < i ==> #[trigger] items@[j]@ == select_item(
                                ifaces@[j]@,
                                self.manual_iface@,
                            ),
                    decreases ifaces.len() - i,
                {
                    let mut item = ifaces[i].clone();
                    if same_text(ifaces[i].as_str(), "Enter manually") {
                        item.append(": ");
                        item.append(self.manual_iface.as_str());
                    }
                    items.push(item);
                    i = i + 1;
                }
            },
            DumpStep::Stream { .. } => {},
        }
        items
    }

    /// The interface being streamed, if any.
    pub fn stream_iface(&self) -> (res: Option<&str>)
        ensures
            self@.step matches DumpStepView::Stream(i) ==> (res matches Some(s) && s@ == i),
            self@.step is Select ==> res is None,
    {
        match &self.step {
            DumpStep::Stream { iface } => Some(iface.as_str()),
            DumpStep::Select { .. } => None,
        }
    }

    pub fn selected(&self) -> (res: usize)
        ensures
            res == self@.selected,
    {
        self.selected
    }
}

/// The lines separated by newlines.
pub open spec fn join_lines(ls: Seq<Seq<char>>) -> Seq<char>
    decreases ls.len(),
{
    if ls.len() == 0 {
        Seq::empty()
    } else if ls.len() == 1 {
        ls[0]
    } else {
        join_lines(ls.drop_last()) + seq!['\n'] + ls.last()
    }
}

/// The dump keeps at most 500 frame lines, the newest last: the history
/// after any number of received lines is the last 500 of all of them.
pub proof fn law_history_is_suffix(history: Seq<Seq<char>>, line: Seq<char>)
    requires
        history.len() <= FRAME_HISTORY,
    ensures
        keep_last(history.push(line), FRAME_HISTORY as nat).len() <= FRAME_HISTORY,
        keep_last(history.push(line), FRAME_HISTORY as nat).last() == line,
{
}

/// With the manual entry selected, a backspace removes exactly the last
/// typed character (nothing when nothing is typed) and leaves the rest of
/// the screen as it was; typing a character that is no control character
/// (and not `j` or `k`, which move the selection) and then a backspace
/// leaves the screen unchanged.
pub proof fn law_dump_backspace_removes_one_character(v: DumpView, ch: char)
    requires
        v.step matches DumpStepView::Select(ifaces) && manual_selected(ifaces, v.selected),
    ensures
        ({
            let after = spec_dump_key(v, Key::Backspace).0;
            &&& after.step == v.step && after.selected == v.selected && after.frames == v.frames
            &&& v.manual_iface.len() == 0 ==> after.manual_iface.len() == 0
            &&& v.manual_iface.len() > 0 ==> after.manual_iface.len() == v.manual_iface.len() - 1
                && v.manual_iface.take(after.manual_iface.len() as int) == after.manual_iface
        }),
        !is_control_char(ch) && ch != 'j' && ch != 'k' ==> spec_dump_key(
            spec_dump_key(v, Key::Char(ch)).0,
            Key::Backspace,
        ).0 == v,
{
    if v.manual_iface.len() > 0 {
        assert(v.manual_iface.take(v.manual_iface.len() - 1) =~= v.manual_iface.drop_last());
    }
    assert(v.manual_iface.push(ch).drop_last() =~= v.manual_iface);
}

} // verus!
