use vstd::prelude::*;
use vstd::utf8::{encode_utf8, encode_utf8_decode_utf8};
use crate::protocol::MessageType;
use crate::wire::{
    be16, be32, name_field, push_be16, push_be32, push_bytes, push_name, lemma_be16_round_trip,
};

verus! {

/// What CRC-32/CKSUM gives for a sequence of bytes.
pub uninterp spec fn crc32_cksum(bytes: Seq<u8>) -> u32;

/// Relies on crc's `Crc::<u32>::checksum` under the `CRC_32_CKSUM` algorithm:
/// its result depends on the bytes alone.
#[verifier::external_body]
fn crc32_cksum_of(bytes: &[u8]) -> (r: u32)
    ensures
        r == crc32_cksum(bytes@),
{
    crc::Crc::<u32>::new(&crc::CRC_32_CKSUM).checksum(bytes)
}

/// A fighter kind and its display name.
pub struct FighterKindName {
    pub kind: u8,
    pub name: String,
}

/// A stage and its display name.
pub struct StageName {
    pub stage: u16,
    pub name: String,
}

/// A status of one fighter kind and its display name.
pub struct FighterStatusName {
    pub fighter: u8,
    pub status: u16,
    pub name: String,
}

/// A hit status and its display name.
pub struct HitStatusName {
    pub status: u8,
    pub name: String,
}

/// The code-to-name tables that clients use to label numeric codes.
pub struct MappingTables {
    pub fighter_kinds: Vec<FighterKindName>,
    pub stage_kinds: Vec<StageName>,
    pub fighter_status_kinds: Vec<FighterStatusName>,
    pub hit_status_kinds: Vec<HitStatusName>,
}

pub struct MappingTablesView {
    pub fighter_kinds: Seq<(u8, Seq<char>)>,
    pub stage_kinds: Seq<(u16, Seq<char>)>,
    pub fighter_status_kinds: Seq<(u8, u16, Seq<char>)>,
    pub hit_status_kinds: Seq<(u8, Seq<char>)>,
}

impl View for MappingTables {
    type V = MappingTablesView;

    open spec fn view(&self) -> MappingTablesView {
        MappingTablesView {
            fighter_kinds: self.fighter_kinds@.map_values(|e: FighterKindName| (e.kind, e.name@)),
            stage_kinds: self.stage_kinds@.map_values(|e: StageName| (e.stage, e.name@)),
            fighter_status_kinds: self.fighter_status_kinds@.map_values(
                |e: FighterStatusName| (e.fighter, e.status, e.name@),
            ),
            hit_status_kinds: self.hit_status_kinds@.map_values(
                |e: HitStatusName| (e.status, e.name@),
            ),
        }
    }
}

/// The bytes of each entry, one after another.
pub open spec fn concat_map<A>(s: Seq<A>, f: spec_fn(A) -> Seq<u8>) -> Seq<u8>
    decreases s.len(),
{
    if s.len() == 0 {
        Seq::empty()
    } else {
        concat_map(s.drop_last(), f) + f(s.last())
    }
}

// What the checksum covers of each entry: its codes, then its name.
pub open spec fn fighter_kind_key(e: (u8, Seq<char>)) -> Seq<u8> {
    seq![e.0] + encode_utf8(e.1)
}

pub open spec fn stage_key(e: (u16, Seq<char>)) -> Seq<u8> {
    be16(e.0) + encode_utf8(e.1)
}

pub open spec fn fighter_status_key(e: (u8, u16, Seq<char>)) -> Seq<u8> {
    seq![e.0] + be16(e.1) + encode_utf8(e.2)
}

pub open spec fn hit_status_key(e: (u8, Seq<char>)) -> Seq<u8> {
    seq![e.0] + encode_utf8(e.1)
}

/// The bytes that the checksum is taken over: fighter kinds, stages,
/// fighter statuses, hit statuses.
pub open spec fn checksum_input(t: MappingTablesView) -> Seq<u8> {
    concat_map(t.fighter_kinds, |e| fighter_kind_key(e)) + concat_map(
        t.stage_kinds,
        |e| stage_key(e),
    ) + concat_map(t.fighter_status_kinds, |e| fighter_status_key(e)) + concat_map(
        t.hit_status_kinds,
        |e| hit_status_key(e),
    )
}

pub open spec fn mapping_checksum(t: MappingTablesView) -> u32 {
    crc32_cksum(checksum_input(t))
}

// One message per entry of each table.
pub open spec fn fighter_kind_message(e: (u8, Seq<char>)) -> Seq<u8> {
    seq![MessageType::MappingInfoFighterKinds.spec_code(), e.0] + name_field(encode_utf8(e.1))
}

pub open spec fn fighter_status_message(e: (u8, u16, Seq<char>)) -> Seq<u8> {
    seq![MessageType::MappingInfoFighterStatusKinds.spec_code(), e.0] + be16(e.1) + name_field(
        encode_utf8(e.2),
    )
}

pub open spec fn stage_message(e: (u16, Seq<char>)) -> Seq<u8> {
    seq![MessageType::MappingInfoStageKinds.spec_code()] + be16(e.0) + name_field(encode_utf8(e.1))
}

pub open spec fn hit_status_message(e: (u8, Seq<char>)) -> Seq<u8> {
    seq![MessageType::MappingInfoHitStatusKinds.spec_code(), e.0] + name_field(encode_utf8(e.1))
}

/// The reply to a mapping request: the checksum, every fighter kind, fighter
/// status, stage and hit status, then the completion tag.
pub open spec fn mapping_info_bytes(t: MappingTablesView, checksum: u32) -> Seq<u8> {
    seq![MessageType::MappingInfoRequest.spec_code()] + be32(checksum) + concat_map(
        t.fighter_kinds,
        |e| fighter_kind_message(e),
    ) + concat_map(t.fighter_status_kinds, |e| fighter_status_message(e)) + concat_map(
        t.stage_kinds,
        |e| stage_message(e),
    ) + concat_map(t.hit_status_kinds, |e| hit_status_message(e)) + seq![
        MessageType::MappingInfoRequestComplete.spec_code(),
    ]
}

proof fn lemma_concat_map_take_step<A>(s: Seq<A>, f: spec_fn(A) -> Seq<u8>, i: int)
    requires
        0 <= i < s.len(),
    ensures
        concat_map(s.take(i + 1), f) == concat_map(s.take(i), f) + f(s[i]),
{
    assert(s.take(i + 1).drop_last() =~= s.take(i));
}

proof fn lemma_concat_map_all<A>(s: Seq<A>, f: spec_fn(A) -> Seq<u8>)
    ensures
        concat_map(s.take(s.len() as int), f) == concat_map(s, f),
{
    assert(s.take(s.len() as int) =~= s);
}

proof fn lemma_concat_map_append<A>(a: Seq<A>, b: Seq<A>, f: spec_fn(A) -> Seq<u8>)
    ensures
        concat_map(a + b, f) == concat_map(a, f) + concat_map(b, f),
    decreases b.len(),
{
    if b.len() == 0 {
        assert(a + b =~= a);
        assert(concat_map(a, f) + concat_map(b, f) =~= concat_map(a, f));
    } else {
        assert((a + b).drop_last() =~= a + b.drop_last());
        lemma_concat_map_append(a, b.drop_last(), f);
        assert(concat_map(a, f) + concat_map(b, f) =~= concat_map(a, f) + concat_map(
            b.drop_last(),
            f,
        ) + f(b.last()));
    }
}

proof fn lemma_concat_map_split<A>(s: Seq<A>, i: int, f: spec_fn(A) -> Seq<u8>)
    requires
        0 <= i < s.len(),
    ensures
        concat_map(s, f) == concat_map(s.take(i), f) + f(s[i]) + concat_map(s.skip(i + 1), f),
{
    assert(s =~= s.take(i) + seq![s[i]] + s.skip(i + 1));
    lemma_concat_map_append(s.take(i) + seq![s[i]], s.skip(i + 1), f);
    lemma_concat_map_append(s.take(i), seq![s[i]], f);
    assert(seq![s[i]].drop_last() =~= Seq::<A>::empty());
    assert(concat_map(Seq::<A>::empty(), f) == Seq::<u8>::empty());
    assert(concat_map(seq![s[i]], f) =~= Seq::<u8>::empty() + f(s[i]));
    assert(concat_map(seq![s[i]], f) =~= f(s[i]));
}

/// Replacing one entry by another whose bytes differ changes the bytes of
/// the whole, whatever stands before and after.
proof fn lemma_concat_map_edit<A>(
    s: Seq<A>,
    i: int,
    e: A,
    f: spec_fn(A) -> Seq<u8>,
    before: Seq<u8>,
    after: Seq<u8>,
)
    requires
        0 <= i < s.len(),
        f(e) != f(s[i]),
    ensures
        before + concat_map(s.update(i, e), f) + after != before + concat_map(s, f) + after,
{
    let u = s.update(i, e);
    lemma_concat_map_split(s, i, f);
    lemma_concat_map_split(u, i, f);
    assert(u.take(i) =~= s.take(i));
    assert(u.skip(i + 1) =~= s.skip(i + 1));
    let head = before + concat_map(s.take(i), f);
    let tail = concat_map(s.skip(i + 1), f) + after;
    let x = before + concat_map(u, f) + after;
    let y = before + concat_map(s, f) + after;
    assert(x =~= head + f(e) + tail);
    assert(y =~= head + f(s[i]) + tail);
    if x == y {
        assert(f(e).len() == f(s[i]).len());
        let k = head.len() as int;
        assert(x.subrange(k, k + f(e).len()) =~= f(e));
        assert(y.subrange(k, k + f(e).len()) =~= f(s[i]));
    }
}

proof fn lemma_code_and_name_injective(c1: Seq<u8>, n1: Seq<char>, c2: Seq<u8>, n2: Seq<char>)
    requires
        c1.len() == c2.len(),
        c1 + encode_utf8(n1) == c2 + encode_utf8(n2),
    ensures
        c1 == c2,
        n1 == n2,
{
    let b1 = c1 + encode_utf8(n1);
    let b2 = c2 + encode_utf8(n2);
    assert(b1.take(c1.len() as int) =~= c1);
    assert(b2.take(c2.len() as int) =~= c2);
    assert(b1.skip(c1.len() as int) =~= encode_utf8(n1));
    assert(b2.skip(c2.len() as int) =~= encode_utf8(n2));
    encode_utf8_decode_utf8(n1);
    encode_utf8_decode_utf8(n2);
}

proof fn lemma_be16_injective(a: u16, b: u16)
    requires
        be16(a) == be16(b),
    ensures
        a == b,
{
    lemma_be16_round_trip(a);
    lemma_be16_round_trip(b);
}

/// The checksum depends on the tables' contents alone: equal tables give
/// equal checksums, on every call.
pub proof fn lemma_checksum_deterministic(t1: MappingTablesView, t2: MappingTablesView)
    requires
        t1 == t2,
    ensures
        mapping_checksum(t1) == mapping_checksum(t2),
{
}

/// Changing the code or the name of one fighter kind changes the bytes that
/// the checksum is taken over.
pub proof fn lemma_fighter_kind_edit_changes_checksum_input(
    t: MappingTablesView,
    i: int,
    e: (u8, Seq<char>),
)
    requires
        0 <= i < t.fighter_kinds.len(),
        e != t.fighter_kinds[i],
    ensures
        checksum_input(MappingTablesView { fighter_kinds: t.fighter_kinds.update(i, e), ..t })
            != checksum_input(t),
{
    let f = |e| fighter_kind_key(e);
    let old_e = t.fighter_kinds[i];
    if f(e) == f(old_e) {
        lemma_code_and_name_injective(seq![e.0], e.1, seq![old_e.0], old_e.1);
        assert(seq![e.0][0] == seq![old_e.0][0]);
    }
    let after = concat_map(t.stage_kinds, |e| stage_key(e)) + concat_map(
        t.fighter_status_kinds,
        |e| fighter_status_key(e),
    ) + concat_map(t.hit_status_kinds, |e| hit_status_key(e));
    lemma_concat_map_edit(t.fighter_kinds, i, e, f, Seq::empty(), after);
    let u = MappingTablesView { fighter_kinds: t.fighter_kinds.update(i, e), ..t };
    assert(checksum_input(u) =~= Seq::empty() + concat_map(t.fighter_kinds.update(i, e), f)
        + after);
    assert(checksum_input(t) =~= Seq::empty() + concat_map(t.fighter_kinds, f) + after);
}

/// Changing the code or the name of one stage changes the bytes that the
/// checksum is taken over.
pub proof fn lemma_stage_edit_changes_checksum_input(
    t: MappingTablesView,
    i: int,
    e: (u16, Seq<char>),
)
    requires
        0 <= i < t.stage_kinds.len(),
        e != t.stage_kinds[i],
    ensures
        checksum_input(MappingTablesView { stage_kinds: t.stage_kinds.update(i, e), ..t })
            != checksum_input(t),
{
    let f = |e| stage_key(e);
    let old_e = t.stage_kinds[i];
    if f(e) == f(old_e) {
        lemma_code_and_name_injective(be16(e.0), e.1, be16(old_e.0), old_e.1);
        lemma_be16_injective(e.0, old_e.0);
    }
    let before = concat_map(t.fighter_kinds, |e| fighter_kind_key(e));
    let after = concat_map(t.fighter_status_kinds, |e| fighter_status_key(e)) + concat_map(
        t.hit_status_kinds,
        |e| hit_status_key(e),
    );
    lemma_concat_map_edit(t.stage_kinds, i, e, f, before, after);
    let u = MappingTablesView { stage_kinds: t.stage_kinds.update(i, e), ..t };
    assert(checksum_input(u) =~= before + concat_map(t.stage_kinds.update(i, e), f) + after);
    assert(checksum_input(t) =~= before + concat_map(t.stage_kinds, f) + after);
}

/// Changing the codes or the name of one fighter status changes the bytes
/// that the checksum is taken over.
pub proof fn lemma_fighter_status_edit_changes_checksum_input(
    t: MappingTablesView,
    i: int,
    e: (u8, u16, Seq<char>),
)
    requires
        0 <= i < t.fighter_status_kinds.len(),
        e != t.fighter_status_kinds[i],
    ensures
        checksum_input(
            MappingTablesView { fighter_status_kinds: t.fighter_status_kinds.update(i, e), ..t },
        ) != checksum_input(t),
{
    let f = |e| fighter_status_key(e);
    let old_e = t.fighter_status_kinds[i];
    if f(e) == f(old_e) {
        let c1 = seq![e.0] + be16(e.1);
        let c2 = seq![old_e.0] + be16(old_e.1);
        lemma_code_and_name_injective(c1, e.2, c2, old_e.2);
        assert(c1[0] == c2[0]);
        assert(c1.skip(1) =~= be16(e.1));
        assert(c2.skip(1) =~= be16(old_e.1));
        lemma_be16_injective(e.1, old_e.1);
    }
    let before = concat_map(t.fighter_kinds, |e| fighter_kind_key(e)) + concat_map(
        t.stage_kinds,
        |e| stage_key(e),
    );
    let after = concat_map(t.hit_status_kinds, |e| hit_status_key(e));
    lemma_concat_map_edit(t.fighter_status_kinds, i, e, f, before, after);
    let u = MappingTablesView { fighter_status_kinds: t.fighter_status_kinds.update(i, e), ..t };
    assert(checksum_input(u) =~= before + concat_map(t.fighter_status_kinds.update(i, e), f)
        + after);
    assert(checksum_input(t) =~= before + concat_map(t.fighter_status_kinds, f) + after);
}

/// Changing the code or the name of one hit status changes the bytes that the
/// checksum is taken over.
pub proof fn lemma_hit_status_edit_changes_checksum_input(
    t: MappingTablesView,
    i: int,
    e: (u8, Seq<char>),
)
    requires
        0 <= i < t.hit_status_kinds.len(),
        e != t.hit_status_kinds[i],
    ensures
        checksum_input(MappingTablesView { hit_status_kinds: t.hit_status_kinds.update(i, e), ..t })
            != checksum_input(t),
{
    let f = |e| hit_status_key(e);
    let old_e = t.hit_status_kinds[i];
    if f(e) == f(old_e) {
        lemma_code_and_name_injective(seq![e.0], e.1, seq![old_e.0], old_e.1);
        assert(seq![e.0][0] == seq![old_e.0][0]);
    }
    let before = concat_map(t.fighter_kinds, |e| fighter_kind_key(e)) + concat_map(
        t.stage_kinds,
        |e| stage_key(e),
    ) + concat_map(t.fighter_status_kinds, |e| fighter_status_key(e));
    lemma_concat_map_edit(t.hit_status_kinds, i, e, f, before, Seq::empty());
    let u = MappingTablesView { hit_status_kinds: t.hit_status_kinds.update(i, e), ..t };
    assert(checksum_input(u) =~= before + concat_map(t.hit_status_kinds.update(i, e), f)
        + Seq::empty());
    assert(checksum_input(t) =~= before + concat_map(t.hit_status_kinds, f) + Seq::empty());
}

impl MappingTables {
    /// The checksum of every table, by which a client tells whether its own
    /// copy is current.
    pub fn checksum(&self) -> (r: u32)
        ensures
            r == mapping_checksum(self@),
    {
        let bytes = self.checksum_input();
        crc32_cksum_of(bytes.as_slice())
    }

    fn checksum_input(&self) -> (r: Vec<u8>)
        ensures
            r@ == checksum_input(self@),
    {
        let ghost t = self@;
        let mut buf: Vec<u8> = Vec::new();
        let mut i: usize = 0;
        while i < self.fighter_kinds.len()
            invariant
                t == self@,
                i <= t.fighter_kinds.len(),
                buf@ == concat_map(t.fighter_kinds.take(i as int), |e| fighter_kind_key(e)),
            decreases t.fighter_kinds.len() - i,
        {
            let e = &self.fighter_kinds[i];
            buf.push(e.kind);
            push_bytes(&mut buf, e.name.as_str().as_bytes());
            proof {
                lemma_concat_map_take_step(t.fighter_kinds, |e| fighter_kind_key(e), i as int);
            }
            i = i + 1;
        }
        proof {
            lemma_concat_map_all(t.fighter_kinds, |e| fighter_kind_key(e));
        }
        let ghost done = buf@;
        i = 0;
        while i < self.stage_kinds.len()
            invariant
                t == self@,
                i <= t.stage_kinds.len(),
                buf@ == done + concat_map(t.stage_kinds.take(i as int), |e| stage_key(e)),
            decreases t.stage_kinds.len() - i,
        {
            let e = &self.stage_kinds[i];
            push_be16(&mut buf, e.stage);
            push_bytes(&mut buf, e.name.as_str().as_bytes());
            proof {
                lemma_concat_map_take_step(t.stage_kinds, |e| stage_key(e), i as int);
            }
            i = i + 1;
        }
        proof {
            lemma_concat_map_all(t.stage_kinds, |e| stage_key(e));
        }
        let ghost done = buf@;
        i = 0;
        while i < self.fighter_status_kinds.len()
            invariant
                t == self@,
                i <= t.fighter_status_kinds.len(),
                buf@ == done + concat_map(
                    t.fighter_status_kinds.take(i as int),
                    |e| fighter_status_key(e),
                ),
            decreases t.fighter_status_kinds.len() - i,
        {
            let e = &self.fighter_status_kinds[i];
            buf.push(e.fighter);
            push_be16(&mut buf, e.status);
            push_bytes(&mut buf, e.name.as_str().as_bytes());
            proof {
                lemma_concat_map_take_step(
                    t.fighter_status_kinds,
                    |e| fighter_status_key(e),
                    i as int,
                );
            }
            i = i + 1;
        }
        proof {
            lemma_concat_map_all(t.fighter_status_kinds, |e| fighter_status_key(e));
        }
        let ghost done = buf@;
        i = 0;
        while i < self.hit_status_kinds.len()
            invariant
                t == self@,
                i <= t.hit_status_kinds.len(),
                buf@ == done + concat_map(t.hit_status_kinds.take(i as int), |e| hit_status_key(e)),
            decreases t.hit_status_kinds.len() - i,
        {
            let e = &self.hit_status_kinds[i];
            buf.push(e.status);
            push_bytes(&mut buf, e.name.as_str().as_bytes());
            proof {
                lemma_concat_map_take_step(t.hit_status_kinds, |e| hit_status_key(e), i as int);
            }
            i = i + 1;
        }
        proof {
            lemma_concat_map_all(t.hit_status_kinds, |e| hit_status_key(e));
        }
        buf
    }
    /// The reply to a mapping request, given the tables' checksum.
    pub fn mapping_info_message(&self, checksum: u32) -> (r: Vec<u8>)
        ensures
            r@ == mapping_info_bytes(self@, checksum),
    {
        let ghost t = self@;
        let mut buf: Vec<u8> = Vec::new();
        buf.push(MessageType::MappingInfoRequest.as_u8());
        push_be32(&mut buf, checksum);
        let ghost done = buf@;
        let mut i: usize = 0;
        while i < self.fighter_kinds.len()
            invariant
                t == self@,
                i <= t.fighter_kinds.len(),
                buf@ == done + concat_map(t.fighter_kinds.take(i as int), |e| fighter_kind_message(e)),
            decreases t.fighter_kinds.len() - i,
        {
            let e = &self.fighter_kinds[i];
            buf.push(MessageType::MappingInfoFighterKinds.as_u8());
            buf.push(e.kind);
            push_name(&mut buf, e.name.as_str().as_bytes());
            proof {
                lemma_concat_map_take_step(t.fighter_kinds, |e| fighter_kind_message(e), i as int);
            }
            i = i + 1;
        }
        proof {
            lemma_concat_map_all(t.fighter_kinds, |e| fighter_kind_message(e));
        }
        let ghost done = buf@;
        i = 0;
        while i < self.fighter_status_kinds.len()
            invariant
                t == self@,
                i <= t.fighter_status_kinds.len(),
                buf@ == done + concat_map(
                    t.fighter_status_kinds.take(i as int),
                    |e| fighter_status_message(e),
                ),
            decreases t.fighter_status_kinds.len() - i,
        {
            let e = &self.fighter_status_kinds[i];
            buf.push(MessageType::MappingInfoFighterStatusKinds.as_u8());
            buf.push(e.fighter);
            push_be16(&mut buf, e.status);
            push_name(&mut buf, e.name.as_str().as_bytes());
            proof {
                lemma_concat_map_take_step(
                    t.fighter_status_kinds,
                    |e| fighter_status_message(e),
                    i as int,
                );
            }
            i = i + 1;
        }
        proof {
            lemma_concat_map_all(t.fighter_status_kinds, |e| fighter_status_message(e));
        }
        let ghost done = buf@;
        i = 0;
        while i < self.stage_kinds.len()
            invariant
                t == self@,
                i <= t.stage_kinds.len(),
                buf@ == done + concat_map(t.stage_kinds.take(i as int), |e| stage_message(e)),
            decreases t.stage_kinds.len() - i,
        {
            let e = &self.stage_kinds[i];
            buf.push(MessageType::MappingInfoStageKinds.as_u8());
            push_be16(&mut buf, e.stage);
            push_name(&mut buf, e.name.as_str().as_bytes());
            proof {
                lemma_concat_map_take_step(t.stage_kinds, |e| stage_message(e), i as int);
            }
            i = i + 1;
        }
        proof {
            lemma_concat_map_all(t.stage_kinds, |e| stage_message(e));
        }
        let ghost done = buf@;
        i = 0;
        while i < self.hit_status_kinds.len()
            invariant
                t == self@,
                i <= t.hit_status_kinds.len(),
                buf@ == done + concat_map(
                    t.hit_status_kinds.take(i as int),
                    |e| hit_status_message(e),
                ),
            decreases t.hit_status_kinds.len() - i,
        {
            let e = &self.hit_status_kinds[i];
            buf.push(MessageType::MappingInfoHitStatusKinds.as_u8());
            buf.push(e.status);
            push_name(&mut buf, e.name.as_str().as_bytes());
            proof {
                lemma_concat_map_take_step(t.hit_status_kinds, |e| hit_status_message(e), i as int);
            }
            i = i + 1;
        }
        proof {
            lemma_concat_map_all(t.hit_status_kinds, |e| hit_status_message(e));
        }
        buf.push(MessageType::MappingInfoRequestComplete.as_u8());
        buf
    }
}

} // verus!
