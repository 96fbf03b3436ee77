use reframed::dispatch::{reply_with_checksum, respond_to_request};
use reframed::mapping::{FighterKindName, FighterStatusName, HitStatusName, MappingTables, StageName};
use reframed::protocol::{
    decode_fighter_state, encode_fighter_state, mapping_info_checksum_message, protocol_version_message,
    training_start_message, FighterState, MessageType,
};
use reframed::session::{FighterFrame, ModeSignals, Sessions};
use reframed::training_info::TrainingInfo;

fn sample_state() -> FighterState {
    FighterState {
        frame: 0x0102_0304,
        entry_id: 1,
        pos_x_bits: (-12.5f32).to_bits(),
        pos_y_bits: 30.25f32.to_bits(),
        damage: 6173,
        hitstun: 50,
        shield: 11000,
        status_kind: 872,
        motion_kind: 0x0000_0012_3456_789A,
        hit_status: 2,
        stock_count: 3,
        attack_connected: true,
        facing_positive: false,
        opponent_in_hitlag: true,
    }
}

fn tables() -> MappingTables {
    MappingTables {
        fighter_kinds: vec![
            FighterKindName { kind: 0, name: String::from("Mario") },
            FighterKindName { kind: 1, name: String::from("Donkey Kong") },
        ],
        stage_kinds: vec![StageName { stage: 347, name: String::from("Small Battlefield") }],
        fighter_status_kinds: vec![FighterStatusName { fighter: 1, status: 260, name: String::from("Jump") }],
        hit_status_kinds: vec![HitStatusName { status: 2, name: String::from("Invincible") }],
    }
}

#[test]
fn fighter_state_encoding_scenario() {
    let bytes = encode_fighter_state(&sample_state());
    assert_eq!(bytes.len(), 30);
    assert_eq!(bytes[0], 15);
    assert_eq!(&bytes[1..5], &[1, 2, 3, 4]);
    assert_eq!(bytes[5], 1);
    assert_eq!(&bytes[6..10], &(-12.5f32).to_be_bytes());
    assert_eq!(&bytes[10..14], &30.25f32.to_be_bytes());
    assert_eq!(&bytes[14..16], &[0x18, 0x1D]);
    assert_eq!(&bytes[16..18], &[0, 50]);
    assert_eq!(&bytes[18..20], &[0x2A, 0xF8]);
    assert_eq!(&bytes[20..22], &[0x03, 0x68]);
    assert_eq!(&bytes[22..27], &[0x12, 0x34, 0x56, 0x78, 0x9A]);
    assert_eq!(&bytes[27..30], &[2, 3, 0b101]);
}

#[test]
fn motion_kind_keeps_low_forty_bits() {
    let mut s = sample_state();
    s.motion_kind = 0xFFEE_DD12_3456_789A;
    let bytes = encode_fighter_state(&s);
    assert_eq!(&bytes[22..27], &[0x12, 0x34, 0x56, 0x78, 0x9A]);
    let back = decode_fighter_state(&bytes).unwrap();
    assert_eq!(back.motion_kind, 0x0000_0012_3456_789A);
}

#[test]
fn fighter_state_round_trip() {
    let s = sample_state();
    assert_eq!(decode_fighter_state(&encode_fighter_state(&s)), Some(s));
    let mut t = sample_state();
    t.attack_connected = false;
    t.facing_positive = true;
    t.opponent_in_hitlag = false;
    t.damage = 49999;
    assert_eq!(decode_fighter_state(&encode_fighter_state(&t)), Some(t));
}

#[test]
fn decode_rejects_other_messages() {
    let mut bytes = encode_fighter_state(&sample_state());
    bytes[0] = 14;
    assert_eq!(decode_fighter_state(&bytes), None);
    let short = encode_fighter_state(&sample_state());
    assert_eq!(decode_fighter_state(&short[..29]), None);
    assert_eq!(decode_fighter_state(&[]), None);
}

#[test]
fn message_type_codes_count_from_zero() {
    assert_eq!(MessageType::ProtocolVersion.as_u8(), 0);
    assert_eq!(MessageType::MappingInfoRequestComplete.as_u8(), 7);
    assert_eq!(MessageType::TrainingReset.as_u8(), 13);
    assert_eq!(MessageType::FighterState.as_u8(), 15);
    for b in 0u8..16 {
        assert_eq!(MessageType::from_u8(b).unwrap().as_u8(), b);
    }
    assert_eq!(MessageType::from_u8(16), None);
    assert_eq!(MessageType::from_u8(255), None);
}

#[test]
fn protocol_version_is_one_one() {
    assert_eq!(protocol_version_message(), vec![0u8, 1, 1]);
}

#[test]
fn checksum_is_crc32_cksum() {
    let t = MappingTables {
        fighter_kinds: vec![FighterKindName { kind: b'1', name: String::from("23456789") }],
        stage_kinds: vec![],
        fighter_status_kinds: vec![],
        hit_status_kinds: vec![],
    };
    assert_eq!(t.checksum(), 0x765e7680);
    assert_eq!(mapping_info_checksum_message(0x765e7680), vec![1u8, 0x76, 0x5e, 0x76, 0x80]);
}

#[test]
fn checksum_is_stable_and_tracks_edits() {
    let t = tables();
    assert_eq!(t.checksum(), t.checksum());
    assert_eq!(t.checksum(), tables().checksum());

    let mut renamed = tables();
    renamed.fighter_kinds[1].name = String::from("Donkey Kongs");
    assert_ne!(renamed.checksum(), t.checksum());

    let mut recoded = tables();
    recoded.stage_kinds[0].stage = 348;
    assert_ne!(recoded.checksum(), t.checksum());

    let mut status = tables();
    status.fighter_status_kinds[0].status = 261;
    assert_ne!(status.checksum(), t.checksum());

    let mut hit = tables();
    hit.hit_status_kinds[0].name = String::from("Intangible");
    assert_ne!(hit.checksum(), t.checksum());
}

#[test]
fn mapping_dump_layout() {
    let t = tables();
    let sessions = Sessions::new();
    let reply = respond_to_request(2, &sessions, &t);
    let c = t.checksum().to_be_bytes();
    let mut expected = vec![2u8, c[0], c[1], c[2], c[3]];
    expected.extend_from_slice(&[3, 0, 5]);
    expected.extend_from_slice(b"Mario");
    expected.extend_from_slice(&[3, 1, 11]);
    expected.extend_from_slice(b"Donkey Kong");
    expected.extend_from_slice(&[4, 1, 1, 4, 4]);
    expected.extend_from_slice(b"Jump");
    expected.extend_from_slice(&[5, 1, 91, 17]);
    expected.extend_from_slice(b"Small Battlefield");
    expected.extend_from_slice(&[6, 2, 10]);
    expected.extend_from_slice(b"Invincible");
    expected.push(7);
    assert_eq!(reply, expected);
}

#[test]
fn empty_tables_dump_header_and_end() {
    let t = MappingTables {
        fighter_kinds: vec![],
        stage_kinds: vec![],
        fighter_status_kinds: vec![],
        hit_status_kinds: vec![],
    };
    let reply = reply_with_checksum(2, &Sessions::new(), &t, 0xDEADBEEF);
    assert_eq!(reply, vec![2u8, 0xDE, 0xAD, 0xBE, 0xEF, 7]);
}

#[test]
fn long_names_are_cut_to_255_bytes() {
    let long = "x".repeat(300);
    let t = MappingTables {
        fighter_kinds: vec![FighterKindName { kind: 4, name: long }],
        stage_kinds: vec![],
        fighter_status_kinds: vec![],
        hit_status_kinds: vec![],
    };
    let reply = reply_with_checksum(2, &Sessions::new(), &t, 0);
    assert_eq!(reply.len(), 5 + 3 + 255 + 1);
    assert_eq!(&reply[5..8], &[3, 4, 255]);
}

#[test]
fn replies_to_each_request() {
    let t = tables();
    let sessions = Sessions::new();
    assert_eq!(respond_to_request(0, &sessions, &t), vec![0u8, 1, 1]);
    let c = t.checksum().to_be_bytes();
    assert_eq!(respond_to_request(1, &sessions, &t), vec![1u8, c[0], c[1], c[2], c[3]]);
    assert!(respond_to_request(9, &sessions, &t).is_empty());
    assert!(respond_to_request(12, &sessions, &t).is_empty());
    for ignored in [3u8, 4, 5, 6, 7, 8, 10, 11, 13, 14, 15, 16, 200] {
        assert!(reply_with_checksum(ignored, &sessions, &t, 1).is_empty());
    }
}

#[test]
fn resume_repeats_running_session() {
    let t = tables();
    let mut sessions = Sessions::new();
    let ready = ModeSignals { is_ready_go: true, is_result_mode: false, is_training_mode: false };
    for (entry, kind) in [(0, 5), (1, 9)] {
        let f = FighterFrame {
            entry_id: entry,
            fighter_kind: kind,
            fighter_skin: 0,
            stage_id: 3,
            entry_count: 2,
            player_tag: String::new(),
        };
        sessions.on_fighter_frame(&f, ready);
    }
    let reply = respond_to_request(9, &sessions, &t);
    assert_eq!(&reply[..11], &[9u8, 0, 3, 2, 0, 5, 0, 1, 9, 0, 8]);
    assert!(respond_to_request(12, &sessions, &t).is_empty());
}

#[test]
fn training_start_message_layout() {
    let mut info = TrainingInfo::new();
    info.set_stage(0x0123);
    info.set_player_info(12);
    info.set_cpu_info(300);
    assert_eq!(training_start_message(MessageType::TrainingResume, &info), vec![12u8, 0x01, 0x23, 12, 44]);
}
