use reframed::dispatch::{handle_fighter_global_reset, once_per_frame_per_fighter};
use reframed::game_info::GameInfo;
use reframed::protocol::FighterState;
use reframed::server::Server;
use reframed::session::{decimal_string, display_name_for, FighterFrame, ModeSignals, SessionEvent, Sessions};
use reframed::training_info::TrainingInfo;

fn frame(entry_id: i32, fighter_kind: i32, fighter_skin: i32, stage_id: i32) -> FighterFrame {
    FighterFrame {
        entry_id,
        fighter_kind,
        fighter_skin,
        stage_id,
        entry_count: 2,
        player_tag: String::new(),
    }
}

fn signals(ready: bool, result: bool, training: bool) -> ModeSignals {
    ModeSignals { is_ready_go: ready, is_result_mode: result, is_training_mode: training }
}

fn state(entry_id: u8) -> FighterState {
    FighterState {
        frame: 7,
        entry_id,
        pos_x_bits: 0,
        pos_y_bits: 0,
        damage: 0,
        hitstun: 0,
        shield: 0,
        status_kind: 0,
        motion_kind: 0,
        hit_status: 0,
        stock_count: 3,
        attack_connected: false,
        facing_positive: true,
        opponent_in_hitlag: false,
    }
}

#[test]
fn match_start_scenario() {
    let mut sessions = Sessions::new();
    let mut server = Server::new();
    server.add_client(4);
    let ready = signals(true, false, false);

    once_per_frame_per_fighter(&mut sessions, &mut server, &frame(0, 5, 0, 3), ready, &state(0));
    assert!(server.take_pending(4).is_empty());
    assert!(!sessions.game_info().match_is_running());

    once_per_frame_per_fighter(&mut sessions, &mut server, &frame(1, 9, 1, 3), ready, &state(1));
    let sent = server.take_pending(4);
    assert_eq!(sent.len(), 2);
    let mut expected = vec![8u8, 0, 3, 2, 0, 5, 0, 1, 9, 1, 8];
    expected.extend_from_slice(b"Player 1");
    expected.push(8);
    expected.extend_from_slice(b"Player 2");
    assert_eq!(sent[0], expected);
    assert_eq!(sent[1][0], 15);
    assert_eq!(sent[1][5], 1);

    let game = sessions.game_info();
    assert!(game.match_is_running());
    assert_eq!(game.get_stage(), 3);
    assert_eq!(game.p1_name(), "Player 1");
    assert_eq!(game.p2_name(), "Player 2");
    assert_eq!(game.p1_fighter_kind(), 5);
    assert_eq!(game.p2_fighter_kind(), 9);
}

#[test]
fn match_start_is_announced_once() {
    let mut sessions = Sessions::new();
    let ready = signals(true, false, false);
    let mut events = Vec::new();
    for _ in 0..3 {
        for entry in 0..2 {
            let d = sessions.on_fighter_frame(&frame(entry, 5 + entry, 0, 3), ready);
            if let Some(e) = d.event {
                events.push(e);
            }
        }
    }
    assert_eq!(events, vec![SessionEvent::MatchStart]);
}

#[test]
fn match_needs_two_participants() {
    let mut sessions = Sessions::new();
    let ready = signals(true, false, false);
    let mut lone = frame(0, 5, 0, 3);
    lone.entry_count = 1;
    let d = sessions.on_fighter_frame(&lone, ready);
    assert_eq!(d.event, None);
    assert!(!d.report_state);
    assert_eq!(sessions.game_info().p1_entry_id(), -1);
}

#[test]
fn same_participant_fills_one_slot() {
    let mut sessions = Sessions::new();
    let ready = signals(true, false, false);
    sessions.on_fighter_frame(&frame(0, 5, 0, 3), ready);
    let d = sessions.on_fighter_frame(&frame(0, 5, 0, 3), ready);
    assert_eq!(d.event, None);
    assert_eq!(sessions.game_info().p1_entry_id(), 0);
    assert_eq!(sessions.game_info().p2_entry_id(), -1);
}

#[test]
fn registered_tag_names_the_player() {
    let mut sessions = Sessions::new();
    let ready = signals(true, false, false);
    let mut tagged = frame(0, 5, 0, 3);
    tagged.player_tag = String::from("Zain");
    sessions.on_fighter_frame(&tagged, ready);
    sessions.on_fighter_frame(&frame(1, 9, 1, 3), ready);
    assert_eq!(sessions.game_info().p1_name(), "Zain");
    assert_eq!(sessions.game_info().p2_name(), "Player 2");
}

#[test]
fn display_name_counts_from_one() {
    assert_eq!(display_name_for("", 0), "Player 1");
    assert_eq!(display_name_for("", 9), "Player 10");
    assert_eq!(display_name_for("", -3), "Player -2");
    assert_eq!(display_name_for("Mew2King", 1), "Mew2King");
}

#[test]
fn match_ends_on_result_screen_only() {
    let mut sessions = Sessions::new();
    let mut server = Server::new();
    server.add_client(9);
    let ready = signals(true, false, false);
    once_per_frame_per_fighter(&mut sessions, &mut server, &frame(0, 5, 0, 3), ready, &state(0));
    once_per_frame_per_fighter(&mut sessions, &mut server, &frame(1, 9, 1, 3), ready, &state(1));
    server.take_pending(9);

    handle_fighter_global_reset(&mut sessions, &mut server, signals(false, false, false));
    assert!(sessions.game_info().match_is_running());
    assert!(server.take_pending(9).is_empty());

    handle_fighter_global_reset(&mut sessions, &mut server, signals(false, true, false));
    assert!(!sessions.game_info().match_is_running());
    assert_eq!(server.take_pending(9), vec![vec![10u8]]);
    assert_eq!(sessions.game_info().p1_entry_id(), -1);
    assert_eq!(sessions.game_info().p2_name(), "");
    assert_eq!(sessions.game_info().get_stage(), 3);

    handle_fighter_global_reset(&mut sessions, &mut server, signals(false, true, false));
    assert!(server.take_pending(9).is_empty());
}

#[test]
fn training_lifecycle_scenario() {
    let mut sessions = Sessions::new();
    let mut server = Server::new();
    server.add_client(3);
    let mut events = Vec::new();

    handle_fighter_global_reset(&mut sessions, &mut server, signals(false, false, true));
    assert!(sessions.training_info().is_start_pending());

    let training_ready = signals(true, false, true);
    let d = sessions.on_fighter_frame(&frame(0, 12, 0, 10), training_ready);
    events.extend(d.event);
    assert_eq!(sessions.training_info().p1_fighter_kind(), 12);
    assert!(!sessions.training_info().is_running());

    once_per_frame_per_fighter(
        &mut sessions,
        &mut server,
        &frame(1, 0, 0, 10),
        training_ready,
        &state(1),
    );
    let sent = server.take_pending(3);
    assert_eq!(sent[0], vec![11u8, 0, 10, 12, 0]);
    assert_eq!(sent.len(), 2);
    assert!(sessions.training_info().is_running());
    assert!(!sessions.training_info().is_start_pending());

    let d = sessions.on_fighter_frame(&frame(0, 12, 0, 10), training_ready);
    events.extend(d.event);
    assert!(d.report_state);

    let stopped = signals(false, false, true);
    once_per_frame_per_fighter(&mut sessions, &mut server, &frame(0, 12, 0, 10), stopped, &state(0));
    assert_eq!(server.take_pending(3), vec![vec![14u8]]);
    let d = sessions.on_fighter_frame(&frame(1, 0, 0, 10), stopped);
    events.extend(d.event);
    assert!(!d.report_state);

    assert!(events.is_empty());
    assert!(!sessions.training_info().is_running());
    assert_eq!(sessions.training_info().get_stage(), -1);
    assert_eq!(sessions.training_info().cpu_fighter_kind(), -1);
}

#[test]
fn training_frames_leave_match_alone() {
    let mut sessions = Sessions::new();
    let d = sessions.on_fighter_frame(&frame(0, 12, 0, 10), signals(true, false, true));
    assert_eq!(d.event, None);
    assert!(!d.report_state);
    assert_eq!(sessions.game_info().p1_entry_id(), -1);
    assert_eq!(sessions.training_info().p1_fighter_kind(), -1);
}

#[test]
fn game_info_slots_fill_in_order() {
    let mut g = GameInfo::new();
    assert!(!g.have_enough_info_to_start_match());
    g.set_match_start();
    assert!(!g.match_is_running());
    g.set_player_info(1, "b", 7, 2);
    g.set_player_info(0, "a", 4, 1);
    g.set_player_info(2, "c", 8, 0);
    assert_eq!(g.p1_entry_id(), 1);
    assert_eq!(g.p2_entry_id(), 0);
    assert_eq!(g.p2_name(), "a");
    assert_eq!(g.p2_fighter_skin(), 1);
    assert!(!g.have_enough_info_to_start_match());
    g.set_stage(44);
    assert!(g.have_enough_info_to_start_match());
    g.set_match_start();
    assert!(g.match_is_running());
    g.set_match_end();
    assert!(!g.match_is_running());
    assert_eq!(g.p1_name(), "");
    assert_eq!(g.p1_fighter_skin(), -1);
}

#[test]
fn training_info_start_needs_everything() {
    let mut t = TrainingInfo::new();
    t.set_start_pending();
    t.set_player_info(3);
    t.set_stage(1);
    t.start();
    assert!(!t.is_running());
    assert!(t.is_start_pending());
    t.set_cpu_info(4);
    assert!(t.have_enough_info_to_start());
    t.start();
    assert!(t.is_running());
    assert!(!t.is_start_pending());
    t.set_start_pending();
    assert!(!t.is_start_pending());
    t.stop();
    assert!(!t.is_running());
    assert_eq!(t.p1_fighter_kind(), -1);
}

#[test]
fn reported_state_carries_frame_entry() {
    let mut sessions = Sessions::new();
    let mut server = Server::new();
    server.add_client(2);
    let ready = signals(true, false, false);
    once_per_frame_per_fighter(&mut sessions, &mut server, &frame(0, 5, 0, 3), ready, &state(7));
    once_per_frame_per_fighter(&mut sessions, &mut server, &frame(1, 9, 1, 3), ready, &state(7));
    once_per_frame_per_fighter(&mut sessions, &mut server, &frame(0, 5, 0, 3), ready, &state(7));
    let sent = server.take_pending(2);
    assert_eq!(sent.len(), 3);
    assert_eq!(sent[1][5], 1);
    assert_eq!(sent[2][5], 0);
}

#[test]
fn decimal_string_writes_integers() {
    assert_eq!(decimal_string(0), "0");
    assert_eq!(decimal_string(7), "7");
    assert_eq!(decimal_string(10), "10");
    assert_eq!(decimal_string(-45), "-45");
    assert_eq!(decimal_string(i64::MAX), i64::MAX.to_string());
    assert_eq!(decimal_string(i64::MIN), i64::MIN.to_string());
}

#[test]
fn game_info_end_keeps_stage() {
    let mut g = GameInfo::new();
    g.set_stage(89);
    g.set_player_info(0, "a", 1, 0);
    g.set_player_info(1, "b", 2, 0);
    g.set_match_start();
    g.set_match_end();
    assert!(!g.match_is_running());
    assert_eq!(g.get_stage(), 89);
    assert_eq!(g.p2_entry_id(), -1);
}
