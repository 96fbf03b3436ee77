use vstd::prelude::*;
use crate::game_info::or_unknown;

verus! {

/// The abstract state of a training session.
pub struct TrainingInfoView {
    pub start_pending: bool,
    pub running: bool,
    pub stage: Option<i32>,
    pub player_kind: Option<i32>,
    pub cpu_kind: Option<i32>,
}

impl TrainingInfoView {
    pub open spec fn idle() -> TrainingInfoView {
        TrainingInfoView {
            start_pending: false,
            running: false,
            stage: None,
            player_kind: None,
            cpu_kind: None,
        }
    }

    /// A pending start and a running session exclude each other, and a
    /// session runs only with both fighters and the stage known.
    pub open spec fn wf(self) -> bool {
        &&& !(self.start_pending && self.running)
        &&& self.running ==> self.has_enough_info()
    }

    pub open spec fn has_enough_info(self) -> bool {
        self.player_kind.is_some() && self.cpu_kind.is_some() && self.stage.is_some()
    }

    /// Stopping forgets the stage and both fighters.
    pub open spec fn stopped(self) -> TrainingInfoView {
        TrainingInfoView {
            running: false,
            stage: None,
            player_kind: None,
            cpu_kind: None,
            ..self
        }
    }

    /// A start becomes pending unless the session already runs.
    pub open spec fn pending(self) -> TrainingInfoView {
        TrainingInfoView { start_pending: self.start_pending || !self.running, ..self }
    }

    /// The pending start is taken once both fighters and the stage are known.
    pub open spec fn started(self) -> TrainingInfoView {
        if self.has_enough_info() {
            TrainingInfoView { start_pending: false, running: true, ..self }
        } else {
            self
        }
    }

    pub open spec fn with_player(self, kind: i32) -> TrainingInfoView {
        TrainingInfoView { player_kind: Some(kind), ..self }
    }

    pub open spec fn with_cpu(self, kind: i32) -> TrainingInfoView {
        TrainingInfoView { cpu_kind: Some(kind), ..self }
    }

    pub open spec fn with_stage(self, stage_id: i32) -> TrainingInfoView {
        TrainingInfoView { stage: Some(stage_id), ..self }
    }
}

/// State of a training session: the player's fighter against a computer one.
pub struct TrainingInfo {
    start_pending: bool,
    is_running: bool,
    stage_id: Option<i32>,
    p1_fighter_kind: Option<i32>,
    cpu_fighter_kind: Option<i32>,
}

impl View for TrainingInfo {
    type V = TrainingInfoView;

    closed spec fn view(&self) -> TrainingInfoView {
        TrainingInfoView {
            start_pending: self.start_pending,
            running: self.is_running,
            stage: self.stage_id,
            player_kind: self.p1_fighter_kind,
            cpu_kind: self.cpu_fighter_kind,
        }
    }
}

impl TrainingInfo {
    pub fn new() -> (r: Self)
        ensures
            r@ == TrainingInfoView::idle(),
            r@.wf(),
    {
        Self {
            start_pending: false,
            is_running: false,
            stage_id: None,
            p1_fighter_kind: None,
            cpu_fighter_kind: None,
        }
    }

    pub fn stop(&mut self)
        requires
            old(self)@.wf(),
        ensures
            final(self)@ == old(self)@.stopped(),
            final(self)@.wf(),
    {
        self.is_running = false;
        self.stage_id = None;
        self.p1_fighter_kind = None;
        self.cpu_fighter_kind = None;
    }

    pub fn set_start_pending(&mut self)
        requires
            old(self)@.wf(),
        ensures
            final(self)@ == old(self)@.pending(),
            final(self)@.wf(),
    {
        if !self.is_running {
            self.start_pending = true;
        }
    }

    pub fn is_start_pending(&self) -> (r: bool)
        ensures
            r == self@.start_pending,
    {
        self.start_pending
    }

    pub fn start(&mut self)
        requires
            old(self)@.wf(),
        ensures
            final(self)@ == old(self)@.started(),
            final(self)@.wf(),
    {
        if self.have_enough_info_to_start() {
            self.start_pending = false;
            self.is_running = true;
        }
    }

    pub fn is_running(&self) -> (r: bool)
        ensures
            r == self@.running,
    {
        self.is_running
    }

    pub fn set_player_info(&mut self, fighter_kind: i32)
        requires
            old(self)@.wf(),
        ensures
            final(self)@ == old(self)@.with_player(fighter_kind),
            final(self)@.wf(),
    {
        self.p1_fighter_kind = Some(fighter_kind);
    }

    pub fn set_cpu_info(&mut self, fighter_kind: i32)
        requires
            old(self)@.wf(),
        ensures
            final(self)@ == old(self)@.with_cpu(fighter_kind),
            final(self)@.wf(),
    {
        self.cpu_fighter_kind = Some(fighter_kind);
    }

    pub fn set_stage(&mut self, stage_id: i32)
        requires
            old(self)@.wf(),
        ensures
            final(self)@ == old(self)@.with_stage(stage_id),
            final(self)@.wf(),
    {
        self.stage_id = Some(stage_id);
    }

    pub fn have_enough_info_to_start(&self) -> (r: bool)
        ensures
            r == self@.has_enough_info(),
    {
        self.p1_fighter_kind.is_some() && self.cpu_fighter_kind.is_some() && self.stage_id.is_some()
    }

    /// The stage, or -1 while it is unknown.
    pub fn get_stage(&self) -> (r: i32)
        ensures
            r == or_unknown(self@.stage),
    {
        match self.stage_id {
            Some(s) => s,
            None => -1,
        }
    }

    /// The player's fighter kind, or -1 while it is unknown.
    pub fn p1_fighter_kind(&self) -> (r: i32)
        ensures
            r == or_unknown(self@.player_kind),
    {
        match self.p1_fighter_kind {
            Some(k) => k,
            None => -1,
        }
    }

    /// The computer's fighter kind, or -1 while it is unknown.
    pub fn cpu_fighter_kind(&self) -> (r: i32)
        ensures
            r == or_unknown(self@.cpu_kind),
    {
        match self.cpu_fighter_kind {
            Some(k) => k,
            None => -1,
        }
    }
}

} // verus!
