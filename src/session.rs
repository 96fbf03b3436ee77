use vstd::prelude::*;
use crate::game_info::{GameInfo, GameInfoView, PlayerView};
use crate::training_info::{TrainingInfo, TrainingInfoView};

verus! {

/// The host's global signals in one callback.
#[derive(Clone, Copy, PartialEq, Eq, Debug, Structural)]
pub struct ModeSignals {
    pub is_ready_go: bool,
    pub is_result_mode: bool,
    pub is_training_mode: bool,
}

/// What one participant's frame callback reports.
pub struct FighterFrame {
    pub entry_id: i32,
    pub fighter_kind: i32,
    pub fighter_skin: i32,
    pub stage_id: i32,
    /// How many participants the host has.
    pub entry_count: i32,
    /// The player tag registered for this participant's slot; empty if none.
    pub player_tag: String,
}

pub struct FighterFrameView {
    pub entry_id: i32,
    pub fighter_kind: i32,
    pub fighter_skin: i32,
    pub stage_id: i32,
    pub entry_count: i32,
    pub player_tag: Seq<char>,
}

impl View for FighterFrame {
    type V = FighterFrameView;

    open spec fn view(&self) -> FighterFrameView {
        FighterFrameView {
            entry_id: self.entry_id,
            fighter_kind: self.fighter_kind,
            fighter_skin: self.fighter_skin,
            stage_id: self.stage_id,
            entry_count: self.entry_count,
            player_tag: self.player_tag@,
        }
    }
}

#[derive(Clone, Copy, PartialEq, Eq, Debug, Structural)]
pub enum SessionEvent {
    MatchStart,
    MatchEnd,
    TrainingStart,
    TrainingEnd,
}

/// The outcome of one frame callback: the event to announce, if any, and
/// whether the participant's state is to be sent.
#[derive(Clone, Copy, PartialEq, Eq, Debug, Structural)]
pub struct FrameDecision {
    pub event: Option<SessionEvent>,
    pub report_state: bool,
}

pub open spec fn digit_char(d: nat) -> char {
    if d == 0 {
        '0'
    } else if d == 1 {
        '1'
    } else if d == 2 {
        '2'
    } else if d == 3 {
        '3'
    } else if d == 4 {
        '4'
    } else if d == 5 {
        '5'
    } else if d == 6 {
        '6'
    } else if d == 7 {
        '7'
    } else if d == 8 {
        '8'
    } else {
        '9'
    }
}

/// The decimal digits of a natural number, without leading zeros.
pub open spec fn decimal_digits(n: nat) -> Seq<char>
    decreases n,
{
    if n < 10 {
        seq![digit_char(n)]
    } else {
        decimal_digits(n / 10).push(digit_char(n % 10))
    }
}

/// An integer in decimal, with a '-' before a negative one.
pub open spec fn decimal(n: int) -> Seq<char> {
    if n < 0 {
        seq!['-'] + decimal_digits((-n) as nat)
    } else {
        decimal_digits(n as nat)
    }
}

fn digit_str(d: u64) -> (r: &'static str)
    requires
        d < 10,
    ensures
        r@ == seq![digit_char(d as nat)],
{
    proof {
        reveal_strlit("0");
        reveal_strlit("1");
        reveal_strlit("2");
        reveal_strlit("3");
        reveal_strlit("4");
        reveal_strlit("5");
        reveal_strlit("6");
        reveal_strlit("7");
        reveal_strlit("8");
        reveal_strlit("9");
    }
    match d {
        0 => "0",
        1 => "1",
        2 => "2",
        3 => "3",
        4 => "4",
        5 => "5",
        6 => "6",
        7 => "7",
        8 => "8",
        _ => "9",
    }
}

fn decimal_digits_string(n: u64) -> (r: String)
    ensures
        r@ == decimal_digits(n as nat),
    decreases n,
{
    if n < 10 {
        digit_str(n).to_owned()
    } else {
        decimal_digits_string(n / 10).concat(digit_str(n % 10))
    }
}

/// An integer written in decimal.
pub fn decimal_string(n: i64) -> (r: String)
    ensures
        r@ == decimal(n as int),
{
    if n < 0 {
        let magnitude: u64 = ((-(n + 1)) as u64) + 1;
        let minus = "-";
        proof {
            reveal_strlit("-");
        }
        minus.to_owned().concat(decimal_digits_string(magnitude).as_str())
    } else {
        decimal_digits_string(n as u64)
    }
}

pub open spec fn player_prefix() -> Seq<char> {
    seq!['P', 'l', 'a', 'y', 'e', 'r', ' ']
}

/// The registered tag, or "Player <slot + 1>" where none is registered.
pub open spec fn display_name(tag: Seq<char>, entry_id: i32) -> Seq<char> {
    if tag.len() == 0 {
        player_prefix() + decimal(entry_id + 1)
    } else {
        tag
    }
}

pub fn display_name_for(tag: &str, entry_id: i32) -> (r: String)
    ensures
        r@ == display_name(tag@, entry_id),
{
    if tag.is_empty() {
        let digits = decimal_string(entry_id as i64 + 1);
        let prefix = "Player ";
        proof {
            reveal_strlit("Player ");
        }
        assert(prefix@ == player_prefix());
        prefix.to_owned().concat(digits.as_str())
    } else {
        tag.to_owned()
    }
}

pub struct SessionsView {
    pub game: GameInfoView,
    pub training: TrainingInfoView,
}

impl SessionsView {
    pub open spec fn initial() -> SessionsView {
        SessionsView { game: GameInfoView::idle(), training: TrainingInfoView::idle() }
    }

    /// Each session runs exactly when all that its start needs is known.
    pub open spec fn wf(self) -> bool {
        &&& self.game.wf()
        &&& self.training.wf()
        &&& self.game.running <==> self.game.has_enough_info()
        &&& self.training.running <==> self.training.has_enough_info()
    }
}

/// One training-mode frame: while a start is pending and the host is ready,
/// participant 0 gives the player's fighter, participant 1 the computer's,
/// and the stage is taken; once all are known the session starts. A running
/// session stops as soon as the host is no longer ready.
pub open spec fn training_frame(t: TrainingInfoView, f: FighterFrameView, ready: bool) -> (
    TrainingInfoView,
    Option<SessionEvent>,
) {
    if ready && t.start_pending {
        let a = if f.entry_id == 0 {
            t.with_player(f.fighter_kind)
        } else {
            t
        };
        let b = if f.entry_id == 1 {
            a.with_cpu(f.fighter_kind)
        } else {
            a
        };
        let c = b.with_stage(f.stage_id);
        if c.has_enough_info() {
            (c.started(), Some(SessionEvent::TrainingStart))
        } else {
            (c, None)
        }
    } else if !ready && t.running {
        (t.stopped(), Some(SessionEvent::TrainingEnd))
    } else {
        (t, None)
    }
}

/// One match frame with two participants: while the host is ready and no
/// match runs, the participant and the stage are recorded, and the match
/// starts once both slots and the stage are known.
pub open spec fn match_frame(g: GameInfoView, f: FighterFrameView, ready: bool) -> (
    GameInfoView,
    Option<SessionEvent>,
) {
    if ready && !g.running {
        let p = PlayerView {
            entry_id: f.entry_id,
            name: display_name(f.player_tag, f.entry_id),
            fighter_kind: f.fighter_kind,
            fighter_skin: f.fighter_skin,
        };
        let g1 = g.with_player(p).with_stage(f.stage_id);
        if g1.has_enough_info() {
            (g1.started(), Some(SessionEvent::MatchStart))
        } else {
            (g1, None)
        }
    } else {
        (g, None)
    }
}

pub open spec fn frame_step(s: SessionsView, f: FighterFrameView, sig: ModeSignals) -> (
    SessionsView,
    FrameDecision,
) {
    if sig.is_training_mode {
        let (t, e) = training_frame(s.training, f, sig.is_ready_go);
        (SessionsView { training: t, ..s }, FrameDecision { event: e, report_state: t.running })
    } else if f.entry_count != 2 {
        (s, FrameDecision { event: None, report_state: false })
    } else {
        let (g, e) = match_frame(s.game, f, sig.is_ready_go);
        (SessionsView { game: g, ..s }, FrameDecision { event: e, report_state: g.running })
    }
}

/// A global reset: in training mode a start becomes pending; outside it, a
/// running match ends once the host shows results and is no longer ready.
pub open spec fn global_reset_step(s: SessionsView, sig: ModeSignals) -> (
    SessionsView,
    Option<SessionEvent>,
) {
    let t = if sig.is_training_mode {
        s.training.pending()
    } else {
        s.training
    };
    if !sig.is_training_mode && !sig.is_ready_go && sig.is_result_mode && s.game.running {
        (SessionsView { game: s.game.ended(), training: t }, Some(SessionEvent::MatchEnd))
    } else {
        (SessionsView { training: t, ..s }, None)
    }
}

/// One callback from the host, as the laws below speak of it.
pub enum SessionInput {
    Frame(FighterFrameView, ModeSignals),
    GlobalReset(ModeSignals),
}

pub open spec fn step(s: SessionsView, input: SessionInput) -> (SessionsView, Option<SessionEvent>) {
    match input {
        SessionInput::Frame(f, sig) => {
            let (s1, d) = frame_step(s, f, sig);
            (s1, d.event)
        },
        SessionInput::GlobalReset(sig) => global_reset_step(s, sig),
    }
}

pub open spec fn event_seq(e: Option<SessionEvent>) -> Seq<SessionEvent> {
    match e {
        Some(x) => seq![x],
        None => Seq::empty(),
    }
}

/// The state after a run of callbacks, and the events announced on the way.
pub open spec fn run(s: SessionsView, inputs: Seq<SessionInput>) -> (SessionsView, Seq<SessionEvent>)
    decreases inputs.len(),
{
    if inputs.len() == 0 {
        (s, Seq::empty())
    } else {
        let (s1, e) = step(s, inputs[0]);
        let (sn, events) = run(s1, inputs.drop_first());
        (sn, event_seq(e) + events)
    }
}

/// Match starts and ends alternate, beginning with a start when no match
/// runs and with an end when one does.
pub open spec fn match_events_alternate(events: Seq<SessionEvent>, running: bool) -> bool
    decreases events.len(),
{
    if events.len() == 0 {
        true
    } else {
        let rest = events.drop_first();
        match events[0] {
            SessionEvent::MatchStart => !running && match_events_alternate(rest, true),
            SessionEvent::MatchEnd => running && match_events_alternate(rest, false),
            _ => match_events_alternate(rest, running),
        }
    }
}

/// Training starts and ends alternate in the same way.
pub open spec fn training_events_alternate(events: Seq<SessionEvent>, running: bool) -> bool
    decreases events.len(),
{
    if events.len() == 0 {
        true
    } else {
        let rest = events.drop_first();
        match events[0] {
            SessionEvent::TrainingStart => !running && training_events_alternate(rest, true),
            SessionEvent::TrainingEnd => running && training_events_alternate(rest, false),
            _ => training_events_alternate(rest, running),
        }
    }
}

/// One callback keeps the state well formed; a start is announced only by a
/// session that was idle and now runs, an end only by one that ran and now
/// is idle, and no other callback changes whether a session runs.
pub proof fn lemma_step_events(s: SessionsView, input: SessionInput)
    requires
        s.wf(),
    ensures
        ({
            let (s1, e) = step(s, input);
            &&& s1.wf()
            &&& e == Some(SessionEvent::MatchStart) ==> !s.game.running && s1.game.running
            &&& e == Some(SessionEvent::MatchEnd) ==> s.game.running && !s1.game.running
            &&& e != Some(SessionEvent::MatchStart) && e != Some(SessionEvent::MatchEnd)
                ==> s1.game.running == s.game.running
            &&& e == Some(SessionEvent::TrainingStart) ==> !s.training.running
                && s1.training.running
            &&& e == Some(SessionEvent::TrainingEnd) ==> s.training.running
                && !s1.training.running
            &&& e != Some(SessionEvent::TrainingStart) && e != Some(SessionEvent::TrainingEnd)
                ==> s1.training.running == s.training.running
        }),
{
}

/// Over any run of callbacks from a well-formed state, no session announces
/// two starts without an end between them, nor an end while it is idle; and
/// the state stays well formed.
pub proof fn lemma_events_alternate(s: SessionsView, inputs: Seq<SessionInput>)
    requires
        s.wf(),
    ensures
        run(s, inputs).0.wf(),
        match_events_alternate(run(s, inputs).1, s.game.running),
        training_events_alternate(run(s, inputs).1, s.training.running),
    decreases inputs.len(),
{
    if inputs.len() > 0 {
        let (s1, e) = step(s, inputs[0]);
        lemma_step_events(s, inputs[0]);
        lemma_events_alternate(s1, inputs.drop_first());
        let rest = run(s1, inputs.drop_first()).1;
        let events = event_seq(e) + rest;
        match e {
            Some(x) => {
                assert(events[0] == x);
                assert(events.drop_first() =~= rest);
            },
            None => {
                assert(events =~= rest);
            },
        }
    }
}

/// From the initial state, after any run of callbacks, a match runs exactly
/// when both player slots and the stage are set, and a training session runs
/// exactly when the player's fighter, the computer's fighter and the stage
/// are set.
pub proof fn lemma_running_iff_complete(inputs: Seq<SessionInput>)
    ensures
        ({
            let s = run(SessionsView::initial(), inputs).0;
            &&& s.game.running <==> (s.game.p1.is_some() && s.game.p2.is_some()
                && s.game.stage.is_some())
            &&& s.training.running <==> (s.training.player_kind.is_some()
                && s.training.cpu_kind.is_some() && s.training.stage.is_some())
        }),
{
    lemma_events_alternate(SessionsView::initial(), inputs);
}

/// Both kinds of match and training sessions, driven by the host's callbacks.
pub struct Sessions {
    game: GameInfo,
    training: TrainingInfo,
}

impl View for Sessions {
    type V = SessionsView;

    closed spec fn view(&self) -> SessionsView {
        SessionsView { game: self.game@, training: self.training@ }
    }
}

impl Sessions {
    pub fn new() -> (r: Sessions)
        ensures
            r@ == SessionsView::initial(),
            r@.wf(),
    {
        Sessions { game: GameInfo::new(), training: TrainingInfo::new() }
    }

    pub fn game_info(&self) -> (r: &GameInfo)
        ensures
            r@ == self@.game,
    {
        &self.game
    }

    pub fn training_info(&self) -> (r: &TrainingInfo)
        ensures
            r@ == self@.training,
    {
        &self.training
    }

    /// Handles the host's global reset callback.
    pub fn on_global_reset(&mut self, signals: ModeSignals) -> (r: Option<SessionEvent>)
        requires
            old(self)@.wf(),
        ensures
            (final(self)@, r) == global_reset_step(old(self)@, signals),
            final(self)@.wf(),
            r == Some(SessionEvent::MatchEnd) ==> old(self)@.game.running
                && !final(self)@.game.running,
            r != Some(SessionEvent::MatchEnd) ==> final(self)@.game.running
                == old(self)@.game.running,
            final(self)@.training.running == old(self)@.training.running,
    {
        if signals.is_training_mode && !self.training.is_running() {
            self.training.set_start_pending();
        }
        if !signals.is_training_mode && !signals.is_ready_go && signals.is_result_mode
            && self.game.match_is_running() {
            self.game.set_match_end();
            return Some(SessionEvent::MatchEnd);
        }
        None
    }

    /// Handles one participant's frame callback.
    pub fn on_fighter_frame(&mut self, frame: &FighterFrame, signals: ModeSignals) -> (r:
        FrameDecision)
        requires
            old(self)@.wf(),
        ensures
            (final(self)@, r) == frame_step(old(self)@, frame@, signals),
            final(self)@.wf(),
            r.event == Some(SessionEvent::MatchStart) ==> !old(self)@.game.running
                && final(self)@.game.running,
            r.event == Some(SessionEvent::TrainingStart) ==> !old(self)@.training.running
                && final(self)@.training.running,
            r.event == Some(SessionEvent::TrainingEnd) ==> old(self)@.training.running
                && !final(self)@.training.running,
            r.event != Some(SessionEvent::MatchStart) ==> final(self)@.game.running
                == old(self)@.game.running,
            r.event != Some(SessionEvent::TrainingStart) && r.event != Some(
                SessionEvent::TrainingEnd,
            ) ==> final(self)@.training.running == old(self)@.training.running,
    {
        let ready = signals.is_ready_go;
        if signals.is_training_mode {
            let mut event: Option<SessionEvent> = None;
            if ready && self.training.is_start_pending() {
                if frame.entry_id == 0 {
                    self.training.set_player_info(frame.fighter_kind);
                }
                if frame.entry_id == 1 {
                    self.training.set_cpu_info(frame.fighter_kind);
                }
                self.training.set_stage(frame.stage_id);
                if self.training.have_enough_info_to_start() {
                    self.training.start();
                    event = Some(SessionEvent::TrainingStart);
                }
            } else if !ready && self.training.is_running() {
                self.training.stop();
                event = Some(SessionEvent::TrainingEnd);
            }
            FrameDecision { event, report_state: self.training.is_running() }
        } else if frame.entry_count != 2 {
            FrameDecision { event: None, report_state: false }
        } else {
            let mut event: Option<SessionEvent> = None;
            if ready && !self.game.match_is_running() {
                let name = display_name_for(frame.player_tag.as_str(), frame.entry_id);
                self.game.set_player_info(
                    frame.entry_id,
                    name.as_str(),
                    frame.fighter_kind,
                    frame.fighter_skin,
                );
                self.game.set_stage(frame.stage_id);
                if self.game.have_enough_info_to_start_match() {
                    self.game.set_match_start();
                    event = Some(SessionEvent::MatchStart);
                }
            }
            FrameDecision { event, report_state: self.game.match_is_running() }
        }
    }
}

} // verus!
