use vstd::prelude::*;

verus! {

/// What the library knows of one participant of a match.
pub struct PlayerInfo {
    pub entry_id: i32,
    pub name: String,
    pub fighter_kind: i32,
    pub fighter_skin: i32,
}

/// The abstract value of a `PlayerInfo`.
pub struct PlayerView {
    pub entry_id: i32,
    pub name: Seq<char>,
    pub fighter_kind: i32,
    pub fighter_skin: i32,
}

impl View for PlayerInfo {
    type V = PlayerView;

    open spec fn view(&self) -> PlayerView {
        PlayerView {
            entry_id: self.entry_id,
            name: self.name@,
            fighter_kind: self.fighter_kind,
            fighter_skin: self.fighter_skin,
        }
    }
}

/// The abstract state of a match session.
pub struct GameInfoView {
    pub running: bool,
    pub stage: Option<i32>,
    pub p1: Option<PlayerView>,
    pub p2: Option<PlayerView>,
}

pub open spec fn player_view_of(p: Option<PlayerInfo>) -> Option<PlayerView> {
    match p {
        Some(info) => Some(info@),
        None => None,
    }
}

/// An identifier, or -1 where it is not known.
pub open spec fn or_unknown(o: Option<i32>) -> i32 {
    match o {
        Some(x) => x,
        None => -1i32,
    }
}

pub open spec fn slot_entry_id(p: Option<PlayerView>) -> i32 {
    match p {
        Some(p) => p.entry_id,
        None => -1i32,
    }
}

pub open spec fn slot_name(p: Option<PlayerView>) -> Seq<char> {
    match p {
        Some(p) => p.name,
        None => Seq::empty(),
    }
}

pub open spec fn slot_fighter_kind(p: Option<PlayerView>) -> i32 {
    match p {
        Some(p) => p.fighter_kind,
        None => -1i32,
    }
}

pub open spec fn slot_fighter_skin(p: Option<PlayerView>) -> i32 {
    match p {
        Some(p) => p.fighter_skin,
        None => -1i32,
    }
}

impl GameInfoView {
    pub open spec fn idle() -> GameInfoView {
        GameInfoView { running: false, stage: None, p1: None, p2: None }
    }

    /// A match runs only with both slots and the stage known; the second slot
    /// is filled after the first, by another participant.
    pub open spec fn wf(self) -> bool {
        &&& self.running ==> self.has_enough_info()
        &&& self.p2.is_some() ==> self.p1.is_some()
        &&& (self.p1.is_some() && self.p2.is_some()) ==> self.p1.unwrap().entry_id
            != self.p2.unwrap().entry_id
    }

    pub open spec fn has_enough_info(self) -> bool {
        self.p1.is_some() && self.p2.is_some() && self.stage.is_some()
    }

    pub open spec fn holds_entry(self, entry_id: i32) -> bool {
        ||| (self.p1.is_some() && self.p1.unwrap().entry_id == entry_id)
        ||| (self.p2.is_some() && self.p2.unwrap().entry_id == entry_id)
    }

    /// A participant is recorded on first sight: into the first slot while it
    /// is empty, else into the second while that is empty.
    pub open spec fn with_player(self, p: PlayerView) -> GameInfoView {
        if self.holds_entry(p.entry_id) {
            self
        } else if self.p1.is_none() {
            GameInfoView { p1: Some(p), ..self }
        } else if self.p2.is_none() {
            GameInfoView { p2: Some(p), ..self }
        } else {
            self
        }
    }

    pub open spec fn with_stage(self, stage_id: i32) -> GameInfoView {
        GameInfoView { stage: Some(stage_id), ..self }
    }

    /// Ending forgets both players; the stage stays as it was.
    pub open spec fn ended(self) -> GameInfoView {
        GameInfoView { running: false, p1: None, p2: None, ..self }
    }

    pub open spec fn started(self) -> GameInfoView {
        GameInfoView { running: self.running || self.has_enough_info(), ..self }
    }
}

/// State of a match session: whether it runs, its stage and its two players.
pub struct GameInfo {
    match_is_running: bool,
    stage_id: Option<i32>,
    p1: Option<PlayerInfo>,
    p2: Option<PlayerInfo>,
}

impl View for GameInfo {
    type V = GameInfoView;

    closed spec fn view(&self) -> GameInfoView {
        GameInfoView {
            running: self.match_is_running,
            stage: self.stage_id,
            p1: player_view_of(self.p1),
            p2: player_view_of(self.p2),
        }
    }
}

impl GameInfo {
    pub fn new() -> (r: GameInfo)
        ensures
            r@ == GameInfoView::idle(),
            r@.wf(),
    {
        GameInfo { match_is_running: false, stage_id: None, p1: None, p2: None }
    }

    /// Ends the session and forgets its players.
    pub fn set_match_end(&mut self)
        ensures
            final(self)@ == old(self)@.ended(),
            final(self)@.wf(),
    {
        self.match_is_running = false;
        self.p1 = None;
        self.p2 = None;
    }

    /// Starts the session if both players and the stage are known.
    pub fn set_match_start(&mut self)
        requires
            old(self)@.wf(),
        ensures
            final(self)@ == old(self)@.started(),
            final(self)@.wf(),
    {
        if self.have_enough_info_to_start_match() {
            self.match_is_running = true;
        }
    }

    pub fn have_enough_info_to_start_match(&self) -> (r: bool)
        ensures
            r == self@.has_enough_info(),
    {
        self.p1.is_some() && self.p2.is_some() && self.stage_id.is_some()
    }

    pub fn match_is_running(&self) -> (r: bool)
        ensures
            r == self@.running,
    {
        self.match_is_running
    }

    fn holds_entry(&self, entry_id: i32) -> (r: bool)
        ensures
            r == self@.holds_entry(entry_id),
    {
        let in_p1 = match &self.p1 {
            Some(p) => p.entry_id == entry_id,
            None => false,
        };
        let in_p2 = match &self.p2 {
            Some(p) => p.entry_id == entry_id,
            None => false,
        };
        in_p1 || in_p2
    }

    /// Records a participant on first sight, in the first free slot.
    pub fn set_player_info(&mut self, entry_id: i32, name: &str, fighter_kind: i32, fighter_skin: i32)
        requires
            old(self)@.wf(),
        ensures
            final(self)@ == old(self)@.with_player(
                PlayerView { entry_id, name: name@, fighter_kind, fighter_skin },
            ),
            final(self)@.wf(),
    {
        if self.holds_entry(entry_id) {
            return;
        }
        let info = PlayerInfo { entry_id, name: name.to_owned(), fighter_kind, fighter_skin };
        if self.p1.is_none() {
            self.p1 = Some(info);
        } else if self.p2.is_none() {
            self.p2 = Some(info);
        }
    }

    pub fn set_stage(&mut self, stage_id: i32)
        requires
            old(self)@.wf(),
        ensures
            final(self)@ == old(self)@.with_stage(stage_id),
            final(self)@.wf(),
    {
        self.stage_id = Some(stage_id);
    }

    /// The stage, or -1 while it is unknown.
    pub fn get_stage(&self) -> (r: i32)
        ensures
            r == or_unknown(self@.stage),
    {
        match self.stage_id {
            Some(s) => s,
            None => -1,
        }
    }

    /// The first player's entry id, or -1 while the slot is empty.
    pub fn p1_entry_id(&self) -> (r: i32)
        ensures
            r == slot_entry_id(self@.p1),
    {
        match &self.p1 {
            Some(p) => p.entry_id,
            None => -1,
        }
    }

    /// The first player's display name, empty while the slot is empty.
    pub fn p1_name(&self) -> (r: &str)
        ensures
            r@ == slot_name(self@.p1),
    {
        match &self.p1 {
            Some(p) => p.name.as_str(),
            None => {
                proof {
                    reveal_strlit("");
                }
                ""
            },
        }
    }
    /// The first player's fighter kind, or -1 while the slot is empty.
    pub fn p1_fighter_kind(&self) -> (r: i32)
        ensures
            r == slot_fighter_kind(self@.p1),
    {
        match &self.p1 {
            Some(p) => p.fighter_kind,
            None => -1,
        }
    }

    /// The first player's costume, or -1 while the slot is empty.
    pub fn p1_fighter_skin(&self) -> (r: i32)
        ensures
            r == slot_fighter_skin(self@.p1),
    {
        match &self.p1 {
            Some(p) => p.fighter_skin,
            None => -1,
        }
    }

    /// The second player's entry id, or -1 while the slot is empty.
    pub fn p2_entry_id(&self) -> (r: i32)
        ensures
            r == slot_entry_id(self@.p2),
    {
        match &self.p2 {
            Some(p) => p.entry_id,
            None => -1,
        }
    }

    /// The second player's display name, empty while the slot is empty.
    pub fn p2_name(&self) -> (r: &str)
        ensures
            r@ == slot_name(self@.p2),
    {
        match &self.p2 {
            Some(p) => p.name.as_str(),
            None => {
                proof {
                    reveal_strlit("");
                }
                ""
            },
        }
    }

    /// The second player's fighter kind, or -1 while the slot is empty.
    pub fn p2_fighter_kind(&self) -> (r: i32)
        ensures
            r == slot_fighter_kind(self@.p2),
    {
        match &self.p2 {
            Some(p) => p.fighter_kind,
            None => -1,
        }
    }

    /// The second player's costume, or -1 while the slot is empty.
    pub fn p2_fighter_skin(&self) -> (r: i32)
        ensures
            r == slot_fighter_skin(self@.p2),
    {
        match &self.p2 {
            Some(p) => p.fighter_skin,
            None => -1,
        }
    }
}

} // verus!
