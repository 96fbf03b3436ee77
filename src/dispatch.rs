use vstd::prelude::*;
use crate::game_info::GameInfo;
use crate::mapping::{MappingTables, MappingTablesView, mapping_checksum, mapping_info_bytes};
use crate::protocol::{
    MessageType, FighterState, encode_fighter_state, fighter_state_bytes, mapping_info_checksum_message,
    mapping_info_checksum_bytes, match_start_bytes, match_start_message, protocol_version_bytes,
    protocol_version_message, tag_message, training_start_bytes, training_start_message,
};
use crate::server::{Server, ServerView};
use crate::session::{
    FighterFrame, ModeSignals, SessionEvent, Sessions, SessionsView, frame_step, global_reset_step,
};
use crate::training_info::TrainingInfo;

verus! {

/// What announces an event: a start carries the session's details, an end is
/// its tag alone.
pub open spec fn event_bytes(e: SessionEvent, s: SessionsView) -> Seq<u8> {
    match e {
        SessionEvent::MatchStart => match_start_bytes(MessageType::MatchStart, s.game),
        SessionEvent::MatchEnd => seq![MessageType::MatchEnd.spec_code()],
        SessionEvent::TrainingStart => training_start_bytes(MessageType::TrainingStart, s.training),
        SessionEvent::TrainingEnd => seq![MessageType::TrainingEnd.spec_code()],
    }
}

/// The reply to a client's request byte, given the tables' checksum: the
/// protocol version, the checksum, the mapping dump, or the running session's
/// details. Every other byte, and a resume request while nothing runs, gets
/// no reply.
pub open spec fn request_reply(request: u8, s: SessionsView, t: MappingTablesView, checksum: u32) -> Seq<u8> {
    match MessageType::spec_from_code(request) {
        Some(MessageType::ProtocolVersion) => protocol_version_bytes(),
        Some(MessageType::MappingInfoChecksum) => mapping_info_checksum_bytes(checksum),
        Some(MessageType::MappingInfoRequest) => mapping_info_bytes(t, checksum),
        Some(MessageType::MatchResume) => if s.game.running {
            match_start_bytes(MessageType::MatchResume, s.game)
        } else {
            Seq::empty()
        },
        Some(MessageType::TrainingResume) => if s.training.running {
            training_start_bytes(MessageType::TrainingResume, s.training)
        } else {
            Seq::empty()
        },
        _ => Seq::empty(),
    }
}

pub fn broadcast_match_start(server: &mut Server, info: &GameInfo)
    requires
        old(server)@.wf(),
    ensures
        final(server)@ == old(server)@.broadcasted(match_start_bytes(MessageType::MatchStart, info@)),
        final(server)@.wf(),
{
    let data = match_start_message(MessageType::MatchStart, info);
    server.broadcast(data.as_slice());
}

pub fn broadcast_match_end(server: &mut Server)
    requires
        old(server)@.wf(),
    ensures
        final(server)@ == old(server)@.broadcasted(seq![MessageType::MatchEnd.spec_code()]),
        final(server)@.wf(),
{
    let data = tag_message(MessageType::MatchEnd);
    server.broadcast(data.as_slice());
}

pub fn broadcast_training_start(server: &mut Server, info: &TrainingInfo)
    requires
        old(server)@.wf(),
    ensures
        final(server)@ == old(server)@.broadcasted(
            training_start_bytes(MessageType::TrainingStart, info@),
        ),
        final(server)@.wf(),
{
    let data = training_start_message(MessageType::TrainingStart, info);
    server.broadcast(data.as_slice());
}

pub fn broadcast_training_end(server: &mut Server)
    requires
        old(server)@.wf(),
    ensures
        final(server)@ == old(server)@.broadcasted(seq![MessageType::TrainingEnd.spec_code()]),
        final(server)@.wf(),
{
    let data = tag_message(MessageType::TrainingEnd);
    server.broadcast(data.as_slice());
}

pub fn broadcast_fighter_info(server: &mut Server, state: &FighterState)
    requires
        old(server)@.wf(),
    ensures
        final(server)@ == old(server)@.broadcasted(fighter_state_bytes(*state)),
        final(server)@.wf(),
{
    let data = encode_fighter_state(state);
    server.broadcast(data.as_slice());
}

fn broadcast_event(server: &mut Server, sessions: &Sessions, e: SessionEvent)
    requires
        old(server)@.wf(),
    ensures
        final(server)@ == old(server)@.broadcasted(event_bytes(e, sessions@)),
        final(server)@.wf(),
{
    match e {
        SessionEvent::MatchStart => broadcast_match_start(server, sessions.game_info()),
        SessionEvent::MatchEnd => broadcast_match_end(server),
        SessionEvent::TrainingStart => broadcast_training_start(server, sessions.training_info()),
        SessionEvent::TrainingEnd => broadcast_training_end(server),
    }
}

/// The server after announcing what may have happened.
pub open spec fn announced(s: ServerView, e: Option<SessionEvent>, sessions: SessionsView) -> ServerView {
    match e {
        Some(e) => s.broadcasted(event_bytes(e, sessions)),
        None => s,
    }
}

/// Handles the host's global reset callback: the sessions take the step, and
/// an ended match is announced to every client.
pub fn handle_fighter_global_reset(sessions: &mut Sessions, server: &mut Server, signals: ModeSignals)
    requires
        old(sessions)@.wf(),
        old(server)@.wf(),
    ensures
        final(sessions)@ == global_reset_step(old(sessions)@, signals).0,
        final(server)@ == announced(
            old(server)@,
            global_reset_step(old(sessions)@, signals).1,
            final(sessions)@,
        ),
        final(sessions)@.wf(),
        final(server)@.wf(),
{
    let e = sessions.on_global_reset(signals);
    if let Some(e) = e {
        broadcast_event(server, sessions, e);
    }
}

/// Handles one participant's frame callback: the sessions take the step, its
/// event is announced, and while a session runs the participant's state
/// follows, under the frame's entry id.
pub fn once_per_frame_per_fighter(
    sessions: &mut Sessions,
    server: &mut Server,
    frame: &FighterFrame,
    signals: ModeSignals,
    state: &FighterState,
)
    requires
        old(sessions)@.wf(),
        old(server)@.wf(),
    ensures
        ({
            let (s1, d) = frame_step(old(sessions)@, frame@, signals);
            let after_event = announced(old(server)@, d.event, s1);
            &&& final(sessions)@ == s1
            &&& final(server)@ == if d.report_state {
                after_event.broadcasted(
                    fighter_state_bytes(FighterState { entry_id: frame.entry_id as u8, ..*state }),
                )
            } else {
                after_event
            }
        }),
        final(sessions)@.wf(),
        final(server)@.wf(),
{
    let d = sessions.on_fighter_frame(frame, signals);
    if let Some(e) = d.event {
        broadcast_event(server, sessions, e);
    }
    if d.report_state {
        let reported = FighterState { entry_id: frame.entry_id as u8, ..*state };
        broadcast_fighter_info(server, &reported);
    }
}

/// The reply to a client's request, given the mapping tables' checksum.
pub fn reply_with_checksum(request: u8, sessions: &Sessions, tables: &MappingTables, checksum: u32) -> (r: Vec<u8>)
    ensures
        r@ == request_reply(request, sessions@, tables@, checksum),
{
    match MessageType::from_u8(request) {
        Some(MessageType::ProtocolVersion) => protocol_version_message(),
        Some(MessageType::MappingInfoChecksum) => mapping_info_checksum_message(checksum),
        Some(MessageType::MappingInfoRequest) => tables.mapping_info_message(checksum),
        Some(MessageType::MatchResume) => {
            if sessions.game_info().match_is_running() {
                match_start_message(MessageType::MatchResume, sessions.game_info())
            } else {
                Vec::new()
            }
        },
        Some(MessageType::TrainingResume) => {
            if sessions.training_info().is_running() {
                training_start_message(MessageType::TrainingResume, sessions.training_info())
            } else {
                Vec::new()
            }
        },
        _ => Vec::new(),
    }
}

/// The reply to a client's request byte; empty for one that asks for nothing.
pub fn respond_to_request(request: u8, sessions: &Sessions, tables: &MappingTables) -> (r: Vec<u8>)
    ensures
        r@ == request_reply(request, sessions@, tables@, mapping_checksum(tables@)),
{
    let checksum = tables.checksum();
    reply_with_checksum(request, sessions, tables, checksum)
}

} // verus!
