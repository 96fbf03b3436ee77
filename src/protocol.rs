use vstd::prelude::*;
use vstd::utf8::encode_utf8;
use crate::game_info::{
    GameInfo, GameInfoView, slot_entry_id, slot_fighter_kind, slot_fighter_skin, slot_name,
    or_unknown,
};
use crate::training_info::{TrainingInfo, TrainingInfoView};
use crate::wire::{
    be16, be32, low40_be, name_field, be16_value, be32_value, be40_value, push_be16, push_be32,
    push_low40_be, push_name, lemma_be16_round_trip, lemma_be32_round_trip,
    lemma_low40_round_trip,
};

verus! {

pub const PROTOCOL_VERSION_MAJOR: u8 = 1;

pub const PROTOCOL_VERSION_MINOR: u8 = 1;

/// Number of bytes of a fighter state message, its tag included.
pub const FIGHTER_STATE_LEN: usize = 30;

/// The tag byte that starts every message.
#[derive(Clone, Copy, PartialEq, Eq, Debug, Structural)]
pub enum MessageType {
    ProtocolVersion,
    MappingInfoChecksum,
    MappingInfoRequest,
    MappingInfoFighterKinds,
    MappingInfoFighterStatusKinds,
    MappingInfoStageKinds,
    MappingInfoHitStatusKinds,
    MappingInfoRequestComplete,
    MatchStart,
    MatchResume,
    MatchEnd,
    TrainingStart,
    TrainingResume,
    TrainingReset,
    TrainingEnd,
    FighterState,
}

impl MessageType {
    /// Tags count up from 0 in the order of declaration.
    pub open spec fn spec_code(self) -> u8 {
        match self {
            MessageType::ProtocolVersion => 0,
            MessageType::MappingInfoChecksum => 1,
            MessageType::MappingInfoRequest => 2,
            MessageType::MappingInfoFighterKinds => 3,
            MessageType::MappingInfoFighterStatusKinds => 4,
            MessageType::MappingInfoStageKinds => 5,
            MessageType::MappingInfoHitStatusKinds => 6,
            MessageType::MappingInfoRequestComplete => 7,
            MessageType::MatchStart => 8,
            MessageType::MatchResume => 9,
            MessageType::MatchEnd => 10,
            MessageType::TrainingStart => 11,
            MessageType::TrainingResume => 12,
            MessageType::TrainingReset => 13,
            MessageType::TrainingEnd => 14,
            MessageType::FighterState => 15,
        }
    }

    pub open spec fn spec_from_code(b: u8) -> Option<MessageType> {
        if b == 0 {
            Some(MessageType::ProtocolVersion)
        } else if b == 1 {
            Some(MessageType::MappingInfoChecksum)
        } else if b == 2 {
            Some(MessageType::MappingInfoRequest)
        } else if b == 3 {
            Some(MessageType::MappingInfoFighterKinds)
        } else if b == 4 {
            Some(MessageType::MappingInfoFighterStatusKinds)
        } else if b == 5 {
            Some(MessageType::MappingInfoStageKinds)
        } else if b == 6 {
            Some(MessageType::MappingInfoHitStatusKinds)
        } else if b == 7 {
            Some(MessageType::MappingInfoRequestComplete)
        } else if b == 8 {
            Some(MessageType::MatchStart)
        } else if b == 9 {
            Some(MessageType::MatchResume)
        } else if b == 10 {
            Some(MessageType::MatchEnd)
        } else if b == 11 {
            Some(MessageType::TrainingStart)
        } else if b == 12 {
            Some(MessageType::TrainingResume)
        } else if b == 13 {
            Some(MessageType::TrainingReset)
        } else if b == 14 {
            Some(MessageType::TrainingEnd)
        } else if b == 15 {
            Some(MessageType::FighterState)
        } else {
            None
        }
    }

    pub fn as_u8(self) -> (r: u8)
        ensures
            r == self.spec_code(),
    {
        match self {
            MessageType::ProtocolVersion => 0,
            MessageType::MappingInfoChecksum => 1,
            MessageType::MappingInfoRequest => 2,
            MessageType::MappingInfoFighterKinds => 3,
            MessageType::MappingInfoFighterStatusKinds => 4,
            MessageType::MappingInfoStageKinds => 5,
            MessageType::MappingInfoHitStatusKinds => 6,
            MessageType::MappingInfoRequestComplete => 7,
            MessageType::MatchStart => 8,
            MessageType::MatchResume => 9,
            MessageType::MatchEnd => 10,
            MessageType::TrainingStart => 11,
            MessageType::TrainingResume => 12,
            MessageType::TrainingReset => 13,
            MessageType::TrainingEnd => 14,
            MessageType::FighterState => 15,
        }
    }

    /// The message type of a tag byte; `None` for a byte that names none.
    pub fn from_u8(b: u8) -> (r: Option<MessageType>)
        ensures
            r == MessageType::spec_from_code(b),
            r is None <==> b > 15,
    {
        match b {
            0 => Some(MessageType::ProtocolVersion),
            1 => Some(MessageType::MappingInfoChecksum),
            2 => Some(MessageType::MappingInfoRequest),
            3 => Some(MessageType::MappingInfoFighterKinds),
            4 => Some(MessageType::MappingInfoFighterStatusKinds),
            5 => Some(MessageType::MappingInfoStageKinds),
            6 => Some(MessageType::MappingInfoHitStatusKinds),
            7 => Some(MessageType::MappingInfoRequestComplete),
            8 => Some(MessageType::MatchStart),
            9 => Some(MessageType::MatchResume),
            10 => Some(MessageType::MatchEnd),
            11 => Some(MessageType::TrainingStart),
            12 => Some(MessageType::TrainingResume),
            13 => Some(MessageType::TrainingReset),
            14 => Some(MessageType::TrainingEnd),
            15 => Some(MessageType::FighterState),
            _ => None,
        }
    }
}

pub open spec fn protocol_version_bytes() -> Seq<u8> {
    seq![MessageType::ProtocolVersion.spec_code(), PROTOCOL_VERSION_MAJOR, PROTOCOL_VERSION_MINOR]
}

pub open spec fn mapping_info_checksum_bytes(checksum: u32) -> Seq<u8> {
    seq![MessageType::MappingInfoChecksum.spec_code()] + be32(checksum)
}

/// The start (or resume) of a match: stage, player count, both players'
/// entry, fighter and costume, then both names.
pub open spec fn match_start_bytes(tag: MessageType, g: GameInfoView) -> Seq<u8> {
    seq![tag.spec_code()] + be16(or_unknown(g.stage) as u16) + seq![
        2u8,
        slot_entry_id(g.p1) as u8,
        slot_fighter_kind(g.p1) as u8,
        slot_fighter_skin(g.p1) as u8,
        slot_entry_id(g.p2) as u8,
        slot_fighter_kind(g.p2) as u8,
        slot_fighter_skin(g.p2) as u8,
    ] + name_field(encode_utf8(slot_name(g.p1))) + name_field(encode_utf8(slot_name(g.p2)))
}

/// The start (or resume) of a training session: stage, player's and
/// computer's fighters.
pub open spec fn training_start_bytes(tag: MessageType, t: TrainingInfoView) -> Seq<u8> {
    seq![tag.spec_code()] + be16(or_unknown(t.stage) as u16) + seq![
        or_unknown(t.player_kind) as u8,
        or_unknown(t.cpu_kind) as u8,
    ]
}

pub fn protocol_version_message() -> (r: Vec<u8>)
    ensures
        r@ == protocol_version_bytes(),
{
    let mut data: Vec<u8> = Vec::new();
    data.push(MessageType::ProtocolVersion.as_u8());
    data.push(PROTOCOL_VERSION_MAJOR);
    data.push(PROTOCOL_VERSION_MINOR);
    assert(data@ =~= protocol_version_bytes());
    data
}

pub fn mapping_info_checksum_message(checksum: u32) -> (r: Vec<u8>)
    ensures
        r@ == mapping_info_checksum_bytes(checksum),
{
    let mut data: Vec<u8> = Vec::new();
    data.push(MessageType::MappingInfoChecksum.as_u8());
    push_be32(&mut data, checksum);
    data
}

/// A message that is its tag alone (the ends of sessions, the end of the
/// mapping dump).
pub fn tag_message(tag: MessageType) -> (r: Vec<u8>)
    ensures
        r@ == seq![tag.spec_code()],
{
    let mut data: Vec<u8> = Vec::new();
    data.push(tag.as_u8());
    data
}

pub fn match_start_message(tag: MessageType, info: &GameInfo) -> (r: Vec<u8>)
    ensures
        r@ == match_start_bytes(tag, info@),
{
    let mut data: Vec<u8> = Vec::new();
    data.push(tag.as_u8());
    push_be16(&mut data, info.get_stage() as u16);
    data.push(2u8);
    data.push(info.p1_entry_id() as u8);
    data.push(info.p1_fighter_kind() as u8);
    data.push(info.p1_fighter_skin() as u8);
    data.push(info.p2_entry_id() as u8);
    data.push(info.p2_fighter_kind() as u8);
    data.push(info.p2_fighter_skin() as u8);
    push_name(&mut data, info.p1_name().as_bytes());
    push_name(&mut data, info.p2_name().as_bytes());
    assert(data@ =~= match_start_bytes(tag, info@));
    data
}

pub fn training_start_message(tag: MessageType, info: &TrainingInfo) -> (r: Vec<u8>)
    ensures
        r@ == training_start_bytes(tag, info@),
{
    let mut data: Vec<u8> = Vec::new();
    data.push(tag.as_u8());
    push_be16(&mut data, info.get_stage() as u16);
    data.push(info.p1_fighter_kind() as u8);
    data.push(info.cpu_fighter_kind() as u8);
    assert(data@ =~= training_start_bytes(tag, info@));
    data
}

/// One participant's state in one frame, as the wire carries it. Positions
/// are the raw bits of 32-bit floats; damage, hitstun and shield are already
/// scaled to integers (by 50, 100 and 200).
#[derive(Clone, Copy, PartialEq, Eq, Debug, Structural)]
pub struct FighterState {
    pub frame: u32,
    pub entry_id: u8,
    pub pos_x_bits: u32,
    pub pos_y_bits: u32,
    pub damage: u16,
    pub hitstun: u16,
    pub shield: u16,
    pub status_kind: u16,
    pub motion_kind: u64,
    pub hit_status: u8,
    pub stock_count: u8,
    pub attack_connected: bool,
    pub facing_positive: bool,
    pub opponent_in_hitlag: bool,
}

pub open spec fn bit(b: bool, value: u8) -> u8 {
    if b {
        value
    } else {
        0
    }
}

/// Bit 0: attack connected; bit 1: facing right; bit 2: opponent in hitlag.
pub open spec fn flags_byte(attack_connected: bool, facing_positive: bool, opponent_in_hitlag: bool) -> u8 {
    (bit(attack_connected, 1) + bit(facing_positive, 2) + bit(opponent_in_hitlag, 4)) as u8
}

pub open spec fn fighter_state_bytes(s: FighterState) -> Seq<u8> {
    seq![MessageType::FighterState.spec_code()] + be32(s.frame) + seq![s.entry_id] + be32(
        s.pos_x_bits,
    ) + be32(s.pos_y_bits) + be16(s.damage) + be16(s.hitstun) + be16(s.shield) + be16(
        s.status_kind,
    ) + low40_be(s.motion_kind) + seq![
        s.hit_status,
        s.stock_count,
        flags_byte(s.attack_connected, s.facing_positive, s.opponent_in_hitlag),
    ]
}

/// Reads a fighter state message: the right length and tag, every field at
/// its place.
pub open spec fn parse_fighter_state(b: Seq<u8>) -> Option<FighterState> {
    if b.len() == FIGHTER_STATE_LEN && b[0] == MessageType::FighterState.spec_code() {
        Some(
            FighterState {
                frame: be32_value(b[1], b[2], b[3], b[4]),
                entry_id: b[5],
                pos_x_bits: be32_value(b[6], b[7], b[8], b[9]),
                pos_y_bits: be32_value(b[10], b[11], b[12], b[13]),
                damage: be16_value(b[14], b[15]),
                hitstun: be16_value(b[16], b[17]),
                shield: be16_value(b[18], b[19]),
                status_kind: be16_value(b[20], b[21]),
                motion_kind: be40_value(b[22], b[23], b[24], b[25], b[26]),
                hit_status: b[27],
                stock_count: b[28],
                attack_connected: b[29] % 2 == 1,
                facing_positive: (b[29] / 2) % 2 == 1,
                opponent_in_hitlag: (b[29] / 4) % 2 == 1,
            },
        )
    } else {
        None
    }
}

/// Decoding an encoded fighter state gives back every field; of the motion
/// kind, the low 40 bits that the message carries.
pub proof fn lemma_fighter_state_round_trip(s: FighterState)
    ensures
        parse_fighter_state(fighter_state_bytes(s)) == Some(
            FighterState { motion_kind: s.motion_kind & 0xff_ffff_ffffu64, ..s },
        ),
{
    let b = fighter_state_bytes(s);
    lemma_be32_round_trip(s.frame);
    lemma_be32_round_trip(s.pos_x_bits);
    lemma_be32_round_trip(s.pos_y_bits);
    lemma_be16_round_trip(s.damage);
    lemma_be16_round_trip(s.hitstun);
    lemma_be16_round_trip(s.shield);
    lemma_be16_round_trip(s.status_kind);
    lemma_low40_round_trip(s.motion_kind);
    assert(b.len() == FIGHTER_STATE_LEN);
    assert(b.subrange(1, 5) =~= be32(s.frame));
    assert(b.subrange(6, 10) =~= be32(s.pos_x_bits));
    assert(b.subrange(10, 14) =~= be32(s.pos_y_bits));
    assert(b.subrange(14, 16) =~= be16(s.damage));
    assert(b.subrange(16, 18) =~= be16(s.hitstun));
    assert(b.subrange(18, 20) =~= be16(s.shield));
    assert(b.subrange(20, 22) =~= be16(s.status_kind));
    assert(b.subrange(22, 27) =~= low40_be(s.motion_kind));
}

pub fn encode_fighter_state(s: &FighterState) -> (r: Vec<u8>)
    ensures
        r@ == fighter_state_bytes(*s),
        r@.len() == FIGHTER_STATE_LEN,
{
    let mut data: Vec<u8> = Vec::new();
    data.push(MessageType::FighterState.as_u8());
    push_be32(&mut data, s.frame);
    data.push(s.entry_id);
    push_be32(&mut data, s.pos_x_bits);
    push_be32(&mut data, s.pos_y_bits);
    push_be16(&mut data, s.damage);
    push_be16(&mut data, s.hitstun);
    push_be16(&mut data, s.shield);
    push_be16(&mut data, s.status_kind);
    push_low40_be(&mut data, s.motion_kind);
    data.push(s.hit_status);
    data.push(s.stock_count);
    let a: u8 = if s.attack_connected { 1 } else { 0 };
    let f: u8 = if s.facing_positive { 2 } else { 0 };
    let o: u8 = if s.opponent_in_hitlag { 4 } else { 0 };
    data.push(a + f + o);
    assert(data@ =~= fighter_state_bytes(*s));
    data
}

fn read_be16(b: &[u8], i: usize) -> (r: u16)
    requires
        i + 2 <= b@.len(),
    ensures
        r == be16_value(b@[i as int], b@[i + 1]),
{
    ((b[i] as u16) << 8u16) | (b[i + 1] as u16)
}

fn read_be32(b: &[u8], i: usize) -> (r: u32)
    requires
        i + 4 <= b@.len(),
    ensures
        r == be32_value(b@[i as int], b@[i + 1], b@[i + 2], b@[i + 3]),
{
    ((b[i] as u32) << 24u32) | ((b[i + 1] as u32) << 16u32) | ((b[i + 2] as u32) << 8u32) | (b[i
        + 3] as u32)
}

/// Decodes a fighter state message; `None` unless it has the length and tag
/// of one.
pub fn decode_fighter_state(b: &[u8]) -> (r: Option<FighterState>)
    ensures
        r == parse_fighter_state(b@),
{
    if b.len() != FIGHTER_STATE_LEN || b[0] != MessageType::FighterState.as_u8() {
        return None;
    }
    let motion_kind: u64 = ((b[22] as u64) << 32u64) | ((b[23] as u64) << 24u64) | ((b[24] as u64)
        << 16u64) | ((b[25] as u64) << 8u64) | (b[26] as u64);
    let flags = b[29];
    Some(
        FighterState {
            frame: read_be32(b, 1),
            entry_id: b[5],
            pos_x_bits: read_be32(b, 6),
            pos_y_bits: read_be32(b, 10),
            damage: read_be16(b, 14),
            hitstun: read_be16(b, 16),
            shield: read_be16(b, 18),
            status_kind: read_be16(b, 20),
            motion_kind,
            hit_status: b[27],
            stock_count: b[28],
            attack_connected: flags % 2 == 1,
            facing_positive: (flags / 2) % 2 == 1,
            opponent_in_hitlag: (flags / 4) % 2 == 1,
        },
    )
}

} // verus!
