//! `Texport`: PES's own in-game team export/import format. Two eras:
//!
//! - 18-21 `.ted`: a 0x50 plaintext header, a 32-byte XOR key at 0x30, then
//!   the save's own team, roster, tactics and player records concatenated
//!   (each version's file size, key index and templates are a
//!   `TexportLayout`).
//! - 15-17 `TEXPORT00000000`: a whole savefile container; the tactics and
//!   player records' payload offsets are an `OldTexport` (the team and roster
//!   records' positions are unmeasured, so the team carries only the id the
//!   tactics record holds and an empty roster).
//!
//! The module owns crypto and carry-through only: every record is decoded
//! and re-encoded by the schema codec, and unmodeled bytes ride along in the
//! retained plaintext or container.
use vstd::prelude::*;
use vstd::slice::{slice_subrange, slice_to_vec};

use crate::codec::player::{
    law_write_after_read_keeps_the_record, player_read_post, player_runs_in_range, player_runs_round_trip,
    player_runs_writable, player_face_fits, player_texts_decode, player_texts_round_trip, player_texts_writable, player_written,
};
use crate::codec::{read_player, read_player_into, read_roster_into, read_tactics_into, read_team, record_schema_wf};
use crate::codec::team::{
    law_tactics_write_after_read_keeps_the_record, roster_runs_round_trip, tactics_runs_round_trip, tactics_runs_spec, team_runs_round_trip, team_text_bytes,
    team_texts_round_trip, team_written,
};
use crate::codec::{
    run_writes, runs_writable, texts_writable, write_player, write_roster, write_runs_spec, write_tactics,
    write_team, CodecError,
};
use crate::container::{decrypt_spec, to_bytes_spec, ContainerError, ContainerView, MasterKey, SaveContainer};
use crate::file::{
    lemma_patch_own_bytes, lemma_player_pair_unchanged, lemma_team_triple_unchanged, patch_at, player_read_from, put_bytes, with_payload, record_id, record_id_spec, roster_applied, schema_for, schema_index,
    schemas_cover, tactics_applied, team_read_from, version_schema_wf, view_version,
};
use crate::model::player::PlayerEntry;
use crate::model::tactics::tactics_value;
use crate::model::team::{roster_field_value, team_field_value, RosterSlot, TeamEntry};
use crate::schema::{schema_runs, RosterField, TacticsField, TeamField, TeamText, VersionSchema};
use crate::version::PesVersion;

verus! {

/// The 18-21 key sits at 0x30.
pub const KEY: usize = 0x30;

/// The body the key encrypts starts at 0x50.
pub const HEADER: usize = 0x50;

/// The coach block's byte length.
pub const COACH: usize = 88;

/// The unmodeled block's byte length after the tactics record.
pub const BLOCK: usize = 660;

/// The tail's byte length after the player records.
pub const TAIL: usize = 12;

/// One 18-21 `.ted` layout: the file size, where the key starts cycling, and
/// the templates a fresh file is built from.
#[derive(Debug, Clone, Copy, PartialEq, Eq)]
pub struct TexportLayout {
    /// The version the layout belongs to.
    pub version: PesVersion,
    /// The file's byte count.
    pub size: usize,
    /// The key byte the body's first byte is XOR'd with.
    pub key_index: usize,
    /// The plaintext header before the key.
    pub header: [u8; 48],
    /// The coach block (its first four bytes are the team id).
    pub coach: [u8; 88],
    /// The bytes after the player records.
    pub tail: [u8; 12],
}

/// Where a 15-17 texport's tactics record and first player record sit in its
/// container's payload.
#[derive(Debug, Clone, Copy, PartialEq, Eq)]
pub struct OldTexport {
    /// The version the offsets belong to.
    pub version: PesVersion,
    /// The tactics record's payload offset.
    pub tactics_at: usize,
    /// The first player record's payload offset.
    pub players_at: usize,
}

/// The data a texport is read against: the record layouts, the 18-21 file
/// layouts and the 15-17 payload offsets.
#[derive(Debug, Clone, Copy)]
pub struct TexportTables {
    /// Every version's record layouts.
    pub schemas: &'static [VersionSchema],
    /// The 18-21 file layouts, one per version at most.
    pub layouts: &'static [TexportLayout],
    /// The 15-17 payload offsets, one per version at most.
    pub old: &'static [OldTexport],
}

/// Why a buffer is not a texport, or the texport cannot be written.
#[derive(Debug, Clone, PartialEq, Eq)]
pub enum TexportError {
    /// The size or the record ids name no version.
    UnknownVersion,
    /// `Some(version)` was passed a file of another size.
    WrongSize {
        /// The version asked for.
        version: PesVersion,
        /// That version's file size.
        expected: usize,
        /// The input's byte count.
        actual: usize,
    },
    /// The 15-17 container crypto failed.
    Container(ContainerError),
    /// A record codec failed.
    Codec(CodecError),
    /// A roster slot and its player record disagree.
    RosterMismatch {
        /// The roster slot.
        slot: usize,
        /// The roster's player id.
        roster: u32,
        /// The record's player id.
        player: u32,
    },
    /// A fresh 15-17 file cannot be built: there is no measured template.
    NoTemplate(PesVersion),
}

/// The 18-21 body XOR'd with the 32-byte key at 0x30, starting at key byte
/// `key_index` and wrapping at 32; the header and the key pass through.
pub open spec fn ted_crypt(bytes: Seq<u8>, key_index: int) -> Seq<u8> {
    Seq::new(
        bytes.len(),
        |i: int|
            if i < HEADER {
                bytes[i]
            } else {
                bytes[i] ^ bytes[KEY + (key_index + i - HEADER) % 32]
            },
    )
}

/// The same function encrypts and decrypts: the key bytes sit below 0x50 and
/// pass through.
fn crypt(bytes: &[u8], key_index: usize) -> (out: Vec<u8>)
    requires
        bytes@.len() >= HEADER,
        key_index < 32,
    ensures
        out@ == ted_crypt(bytes@, key_index as int),
{
    let mut out = slice_to_vec(bytes);
    let mut k: usize = key_index;
    let mut i: usize = HEADER;
    while i < out.len()
        invariant
            HEADER <= i <= bytes@.len(),
            out@.len() == bytes@.len(),
            k < 32,
            k == (key_index + i - HEADER) % 32,
            forall|j: int| 0 <= j < i ==> out@[j] == ted_crypt(bytes@, key_index as int)[j],
            forall|j: int| i <= j < bytes@.len() ==> out@[j] == bytes@[j],
        decreases bytes@.len() - i,
    {
        let b = bytes[i] ^ bytes[KEY + k];
        out.set(i, b);
        k = (k + 1) % 32;
        i = i + 1;
    }
    assert(out@ =~= ted_crypt(bytes@, key_index as int));
    out
}

/// The `.ted` cipher undoes itself: crypting a crypted file under the same
/// key index gives the file back.
pub proof fn law_crypt_undoes_itself(bytes: Seq<u8>, key_index: int)
    requires
        bytes.len() >= HEADER,
        0 <= key_index < 32,
    ensures
        ted_crypt(ted_crypt(bytes, key_index), key_index) == bytes,
{
    let c = ted_crypt(bytes, key_index);
    assert forall|i: int| 0 <= i < bytes.len() implies #[trigger] ted_crypt(c, key_index)[i] == bytes[i] by {
        if i >= HEADER {
            let kk = KEY + (key_index + i - HEADER) % 32;
            assert(c[kk] == bytes[kk]);
            let x = bytes[i];
            let y = bytes[kk];
            assert((x ^ y) ^ y == x) by (bit_vector);
        }
    }
    assert(ted_crypt(c, key_index) =~= bytes);
}

/// Byte `j` of the body, counted from the body's start at 0x50.
pub open spec fn body_byte(bytes: Seq<u8>, j: int) -> u8 {
    bytes[HEADER + j]
}

/// The `.ted` key stream starts at key byte `key_index` on the first body byte
/// and advances one key byte per body byte, wrapping at 32: body byte `j` is
/// XOR'd with key byte `(key_index + j) mod 32`, wherever the body sits in the
/// file. The header and the key below 0x50 pass through unchanged.
pub proof fn law_crypt_key_stream_starts_at_the_body(bytes: Seq<u8>, key_index: int)
    requires
        bytes.len() >= HEADER,
        0 <= key_index < 32,
    ensures
        ted_crypt(bytes, key_index).len() == bytes.len(),
        forall|i: int| 0 <= i < HEADER ==> #[trigger] ted_crypt(bytes, key_index)[i] == bytes[i],
        forall|j: int|
            0 <= j < bytes.len() - HEADER ==> #[trigger] body_byte(ted_crypt(bytes, key_index), j) == body_byte(bytes, j)
                ^ bytes[KEY + (key_index + j) % 32],
        bytes.len() > HEADER ==> body_byte(ted_crypt(bytes, key_index), 0) == body_byte(bytes, 0) ^ bytes[KEY + key_index],
{
    let c = ted_crypt(bytes, key_index);
    assert forall|j: int| 0 <= j < bytes.len() - HEADER implies #[trigger] body_byte(c, j) == body_byte(bytes, j)
        ^ bytes[KEY + (key_index + j) % 32] by {
        assert(HEADER + j - HEADER == j);
    }
    if bytes.len() > HEADER {
        assert(body_byte(c, 0) == body_byte(bytes, 0) ^ bytes[KEY + (key_index + 0) % 32]);
        assert((key_index + 0) % 32 == key_index);
    }
}

/// The record offsets of an 18-21 file.
#[derive(Debug, Clone, Copy, PartialEq, Eq)]
pub struct TedOffsets {
    /// The team record.
    pub team: usize,
    /// The coach block.
    pub coach: usize,
    /// The roster record.
    pub roster: usize,
    /// The tactics record.
    pub tactics: usize,
    /// The first player record.
    pub players: usize,
    /// How many player records the file holds.
    pub width: usize,
}

/// The first player record's offset: team at 0x50, then the coach block, the
/// roster, the tactics and the 660-byte block.
pub open spec fn ted_players_at(s: VersionSchema) -> int {
    HEADER + s.team.size + COACH + s.roster.size + s.tactic.size + BLOCK
}

/// How many player records fit between the block and the tail.
pub open spec fn ted_width(size: int, s: VersionSchema) -> int {
    (size - TAIL - ted_players_at(s)) / (s.player.size as int)
}

/// The offsets of a `size`-byte file under `s`.
pub open spec fn ted_offsets(size: int, s: VersionSchema) -> TedOffsets {
    TedOffsets {
        team: HEADER,
        coach: (HEADER + s.team.size) as usize,
        roster: (HEADER + s.team.size + COACH) as usize,
        tactics: (HEADER + s.team.size + COACH + s.roster.size) as usize,
        players: ted_players_at(s) as usize,
        width: ted_width(size, s) as usize,
    }
}

/// A file layout the records fill exactly: the player records and the tail
/// end where the file does.
pub open spec fn ted_layout_wf(l: TexportLayout, s: VersionSchema) -> bool {
    &&& version_schema_wf(s)
    &&& l.key_index < 32
    &&& s.player.size >= 4
    &&& ted_players_at(s) + TAIL <= l.size
    &&& ted_players_at(s) + ted_width(l.size as int, s) * s.player.size + TAIL == l.size
}

/// The offsets of `layout`'s files.
fn ted_offsets_of(layout: &TexportLayout, schema: &VersionSchema) -> (o: TedOffsets)
    requires
        ted_layout_wf(*layout, *schema),
    ensures
        o == ted_offsets(layout.size as int, *schema),
{
    let team = HEADER;
    let coach = team + schema.team.size;
    let roster = coach + COACH;
    let tactics = roster + schema.roster.size;
    let players = tactics + schema.tactic.size + BLOCK;
    let width = (layout.size - TAIL - players) / schema.player.size;
    TedOffsets { team, coach, roster, tactics, players, width }
}

/// The little-endian id at `at`.
pub open spec fn id_at(plain: Seq<u8>, at: int) -> u32 {
    record_id_spec(plain.subrange(at, at + 4))
}

/// The team, roster and tactics records carry one id.
pub open spec fn ted_ids_agree(plain: Seq<u8>, o: TedOffsets) -> bool {
    id_at(plain, o.team as int) == id_at(plain, o.roster as int) && id_at(plain, o.roster as int) == id_at(
        plain,
        o.tactics as int,
    )
}

/// The little-endian `u32` at `at`.
fn u32_at(plain: &[u8], at: usize) -> (v: u32)
    requires
        at + 4 <= plain@.len(),
    ensures
        v == id_at(plain@, at as int),
{
    (plain[at] as u32) + 256 * (plain[at + 1] as u32) + 65536 * (plain[at + 2] as u32) + 16777216 * (plain[at
        + 3] as u32)
}

/// Whether the decrypted candidate's team, roster and tactics records carry
/// one id: the check that picks 20 or 21 out of a shared file size.
fn ids_agree(plain: &[u8], o: &TedOffsets, schema: &VersionSchema) -> (b: bool)
    requires
        o.tactics + schema.tactic.size <= plain@.len(),
        o.team + 4 <= o.roster,
        o.roster + 4 <= o.tactics,
        schema.tactic.size >= 4,
    ensures
        b == ted_ids_agree(plain@, *o),
{
    let team = u32_at(plain, o.team);
    let roster = u32_at(plain, o.roster);
    let tactics = u32_at(plain, o.tactics);
    team == roster && roster == tactics
}

/// The index of the first layout at or after `k` for `v`.
pub open spec fn layout_index_from(layouts: Seq<TexportLayout>, v: PesVersion, k: int) -> Option<int>
    decreases layouts.len() - k,
{
    if k < 0 || k >= layouts.len() {
        None
    } else if layouts[k].version == v {
        Some(k)
    } else {
        layout_index_from(layouts, v, k + 1)
    }
}

/// The layout for `v`, if the tables hold one.
pub open spec fn layout_for(layouts: Seq<TexportLayout>, v: PesVersion) -> Option<TexportLayout> {
    match layout_index_from(layouts, v, 0) {
        Some(k) => Some(layouts[k]),
        None => None,
    }
}

/// The index of the first 15-17 offsets at or after `k` for `v`.
pub open spec fn old_index_from(old: Seq<OldTexport>, v: PesVersion, k: int) -> Option<int>
    decreases old.len() - k,
{
    if k < 0 || k >= old.len() {
        None
    } else if old[k].version == v {
        Some(k)
    } else {
        old_index_from(old, v, k + 1)
    }
}

/// The 15-17 offsets for `v`, if the tables hold them.
pub open spec fn old_for(old: Seq<OldTexport>, v: PesVersion) -> Option<OldTexport> {
    match old_index_from(old, v, 0) {
        Some(k) => Some(old[k]),
        None => None,
    }
}

/// The record layouts of `v`.
#[verifier::opaque]
pub open spec fn texport_schema(t: TexportTables, v: PesVersion) -> VersionSchema {
    t.schemas@[schema_index(t.schemas@, v)]
}

/// Record layouts a texport can be read against: every version has one,
/// and every player record holds an id and steps through a payload without
/// overflow.
pub open spec fn texport_schemas_wf(schemas: Seq<VersionSchema>) -> bool {
    &&& schemas_cover(schemas)
    &&& forall|i: int|
        0 <= i < schemas.len() ==> (#[trigger] schemas[i]).player.size >= 4 && old_stride(schemas[i])
            <= usize::MAX
}

/// Tables a texport can be read against: every version has record layouts,
/// no version has two file layouts or two offset rows, and every file layout
/// is filled exactly by its version's records.
#[verifier::opaque]
pub open spec fn texport_tables_wf(t: TexportTables) -> bool {
    &&& texport_schemas_wf(t.schemas@)
    &&& forall|i: int, j: int|
        0 <= i < j < t.layouts@.len() ==> (#[trigger] t.layouts@[i]).version != (#[trigger] t.layouts@[j]).version
    &&& forall|i: int, j: int|
        0 <= i < j < t.old@.len() ==> (#[trigger] t.old@[i]).version != (#[trigger] t.old@[j]).version
    &&& forall|k: int|
        0 <= k < t.layouts@.len() ==> ted_layout_wf(
            #[trigger] t.layouts@[k],
            texport_schema(t, t.layouts@[k].version),
        )
}

/// The file layout for `v`.
fn find_layout(layouts: &'static [TexportLayout], v: PesVersion) -> (r: Option<&'static TexportLayout>)
    ensures
        match layout_index_from(layouts@, v, 0) {
            Some(k) => r == Some(&layouts@[k]),
            None => r is None,
        },
{
    let mut k: usize = 0;
    while k < layouts.len()
        invariant
            k <= layouts@.len(),
            layout_index_from(layouts@, v, 0) == layout_index_from(layouts@, v, k as int),
        decreases layouts@.len() - k,
    {
        if layouts[k].version == v {
            return Some(&layouts[k]);
        }
        k = k + 1;
    }
    None
}

/// The 15-17 offsets for `v`.
fn find_old(old: &'static [OldTexport], v: PesVersion) -> (r: Option<&'static OldTexport>)
    ensures
        match old_index_from(old@, v, 0) {
            Some(k) => r == Some(&old@[k]),
            None => r is None,
        },
{
    let mut k: usize = 0;
    while k < old.len()
        invariant
            k <= old@.len(),
            old_index_from(old@, v, 0) == old_index_from(old@, v, k as int),
        decreases old@.len() - k,
    {
        if old[k].version == v {
            return Some(&old[k]);
        }
        k = k + 1;
    }
    None
}

/// The roster slots `0..n` whose player id is set, in slot order.
pub open spec fn filled_slots(roster: Seq<RosterSlot>, n: nat) -> Seq<int>
    decreases n,
{
    if n == 0 {
        Seq::empty()
    } else {
        let prev = filled_slots(roster, (n - 1) as nat);
        if roster[n - 1].player_id != 0 {
            prev.push(n - 1)
        } else {
            prev
        }
    }
}

/// The filled slots a `.ted` file of `width` player records holds.
pub open spec fn ted_slots(roster: Seq<RosterSlot>, width: int) -> Seq<int> {
    filled_slots(roster, if width < roster.len() { width as nat } else { roster.len() })
}

/// A shorter walk of the roster gives a prefix of a longer one's slots, and
/// every slot lies in the walked range.
proof fn lemma_filled_slots(roster: Seq<RosterSlot>, a: nat, b: nat)
    requires
        a <= b,
    ensures
        filled_slots(roster, a) == filled_slots(roster, b).take(filled_slots(roster, a).len() as int),
        filled_slots(roster, a).len() <= filled_slots(roster, b).len(),
        forall|j: int| 0 <= j < filled_slots(roster, b).len() ==> 0 <= #[trigger] filled_slots(roster, b)[j] < b,
    decreases b,
{
    if b > 0 {
        let pn = (b - 1) as nat;
        if a < b {
            lemma_filled_slots(roster, a, pn);
        } else {
            lemma_filled_slots(roster, pn, pn);
        }
        let prev = filled_slots(roster, pn);
        let la = filled_slots(roster, a).len() as int;
        if roster[b - 1].player_id != 0 {
            assert(filled_slots(roster, b) == prev.push(b - 1));
            if a < b {
                assert(prev.push(b - 1).take(la) =~= prev.take(la));
            }
        }
        if a == b {
            assert(filled_slots(roster, a) =~= filled_slots(roster, b).take(la));
        }
    }
}

/// The player record of slot `k`.
pub open spec fn ted_player_record(plain: Seq<u8>, o: TedOffsets, s: VersionSchema, k: int) -> Seq<u8> {
    plain.subrange(o.players + k * s.player.size, o.players + (k + 1) * s.player.size)
}

/// `players[0..n]` written into the player records of `slots[0..n]`, in
/// order.
pub open spec fn slots_written(
    plain: Seq<u8>,
    o: TedOffsets,
    s: VersionSchema,
    slots: Seq<int>,
    players: Seq<PlayerEntry>,
    n: nat,
) -> Seq<u8>
    decreases n,
{
    if n == 0 {
        plain
    } else {
        let prev = slots_written(plain, o, s, slots, players, (n - 1) as nat);
        let at = o.players + slots[n - 1] * s.player.size;
        patch_at(prev, at, player_written(players[n - 1], prev.subrange(at, at + s.player.size), s.player))
    }
}

/// The four little-endian bytes of `v`.
pub open spec fn le_u32(v: u32) -> Seq<u8> {
    seq![(v % 256) as u8, ((v / 256) % 256) as u8, ((v / 65536) % 256) as u8, (v / 16777216) as u8]
}

/// The team, the coach block's id, the roster and the tactics written into
/// the plaintext, in that order.
pub open spec fn ted_team_written(plain: Seq<u8>, o: TedOffsets, s: VersionSchema, t: TeamEntry) -> Seq<u8> {
    let p1 = patch_at(plain, o.team as int, team_written(t, plain.subrange(o.team as int, o.team + s.team.size), s.team));
    let p2 = patch_at(p1, o.coach as int, le_u32(t.id));
    let p3 = patch_at(
        p2,
        o.roster as int,
        write_runs_spec(
            p2.subrange(o.roster as int, o.roster + s.roster.size),
            run_writes(|g: RosterField| roster_field_value(t, g), schema_runs(s.roster)),
        ),
    );
    patch_at(
        p3,
        o.tactics as int,
        write_runs_spec(
            p3.subrange(o.tactics as int, o.tactics + s.tactic.size),
            run_writes(|g: TacticsField| tactics_value(t, g), tactics_runs_spec(s.tactic)),
        ),
    )
}

/// The team's three records can be written.
pub open spec fn ted_team_writable(t: TeamEntry, s: VersionSchema) -> bool {
    &&& runs_writable(|g: TeamField| team_field_value(t, g), schema_runs(s.team))
    &&& texts_writable(|x: TeamText| team_text_bytes(t, x), s.team.texts@)
    &&& runs_writable(|g: RosterField| roster_field_value(t, g), schema_runs(s.roster))
    &&& runs_writable(|g: TacticsField| tactics_value(t, g), tactics_runs_spec(s.tactic))
}

/// `players` are the filled slots' players, in roster order, and each can be
/// written.
pub open spec fn ted_players_fit(roster: Seq<RosterSlot>, width: int, s: VersionSchema, players: Seq<PlayerEntry>) -> bool {
    let slots = ted_slots(roster, width);
    &&& players.len() == slots.len()
    &&& forall|j: int|
        0 <= j < players.len() ==> {
            &&& (#[trigger] players[j]).id == roster[slots[j]].player_id
            &&& player_runs_writable(players[j], schema_runs(s.player))
            &&& player_texts_writable(players[j], s.player.texts@) && player_face_fits(players[j], s.player)
        }
}

/// Everything a `.ted` file's records are written from, written.
pub open spec fn ted_written(plain: Seq<u8>, o: TedOffsets, s: VersionSchema, t: TeamEntry, players: Seq<PlayerEntry>) -> Seq<u8> {
    slots_written(ted_team_written(plain, o, s, t), o, s, ted_slots(t.roster@, o.width as int), players, players.len())
}

/// The offsets sit where a `layout`-sized plaintext has room for them.
pub open spec fn ted_fits(plain: Seq<u8>, o: TedOffsets, s: VersionSchema) -> bool {
    &&& version_schema_wf(s)
    &&& s.player.size > 0
    &&& o.team == HEADER
    &&& o.coach == o.team + s.team.size
    &&& o.roster == o.coach + COACH
    &&& o.tactics == o.roster + s.roster.size
    &&& o.players == o.tactics + s.tactic.size + BLOCK
    &&& o.players + o.width * s.player.size + TAIL == plain.len()
}

/// A layout's offsets fit its files.
proof fn lemma_layout_fits(l: TexportLayout, s: VersionSchema, plain: Seq<u8>)
    requires
        ted_layout_wf(l, s),
        plain.len() == l.size,
    ensures
        ted_fits(plain, ted_offsets(l.size as int, s), s),
{
}

/// Writes the team, the coach block's id, the roster and the tactics.
fn write_ted_team(plain: &mut Vec<u8>, o: &TedOffsets, s: &VersionSchema, team: &TeamEntry) -> (r: Result<
    (),
    CodecError,
>)
    requires
        ted_fits(old(plain)@, *o, *s),
    ensures
        final(plain)@.len() == old(plain)@.len(),
        r is Ok <==> ted_team_writable(*team, *s),
        r is Ok ==> final(plain)@ == ted_team_written(old(plain)@, *o, *s, *team),
{
    let ghost p0 = plain@;
    let mut rec = slice_to_vec(slice_subrange(plain.as_slice(), o.team, o.team + s.team.size));
    match write_team(team, rec.as_mut_slice(), &s.team) {
        Ok(()) => {},
        Err(e) => {
            return Err(e);
        },
    }
    put_bytes(plain, o.team, rec.as_slice());
    let id = team.id;
    let id_bytes: [u8; 4] = [(id % 256) as u8, ((id / 256) % 256) as u8, ((id / 65536) % 256) as u8, (id / 16777216) as u8];
    proof {
        assert(id_bytes@ =~= le_u32(team.id));
    }
    put_bytes(plain, o.coach, id_bytes.as_slice());
    let mut rec = slice_to_vec(slice_subrange(plain.as_slice(), o.roster, o.roster + s.roster.size));
    match write_roster(team, rec.as_mut_slice(), &s.roster) {
        Ok(()) => {},
        Err(e) => {
            return Err(e);
        },
    }
    put_bytes(plain, o.roster, rec.as_slice());
    let mut rec = slice_to_vec(slice_subrange(plain.as_slice(), o.tactics, o.tactics + s.tactic.size));
    match write_tactics(team, rec.as_mut_slice(), &s.tactic) {
        Ok(()) => {},
        Err(e) => {
            return Err(e);
        },
    }
    put_bytes(plain, o.tactics, rec.as_slice());
    Ok(())
}

/// Writes each filled roster slot's player, in roster order, into the
/// slot's player record; `players` must be those slots' players in that
/// order (`RosterMismatch` on an id or count disagreement).
fn write_ted_players(
    plain: &mut Vec<u8>,
    o: &TedOffsets,
    s: &VersionSchema,
    roster: &Vec<RosterSlot>,
    players: &[PlayerEntry],
) -> (r: Result<(), TexportError>)
    requires
        ted_fits(old(plain)@, *o, *s),
    ensures
        final(plain)@.len() == old(plain)@.len(),
        r is Ok <==> ted_players_fit(roster@, o.width as int, *s, players@),
        r is Ok ==> final(plain)@ == slots_written(
            old(plain)@,
            *o,
            *s,
            ted_slots(roster@, o.width as int),
            players@,
            players@.len(),
        ),
        r matches Err(e) ==> e is RosterMismatch || e is Codec,
{
    let ghost p0 = plain@;
    let n = if o.width < roster.len() {
        o.width
    } else {
        roster.len()
    };
    let ghost slots = ted_slots(roster@, o.width as int);
    let psize = s.player.size;
    let plen = plain.len();
    let mut j: usize = 0;
    let mut slot: usize = 0;
    while slot < n
        invariant
            plen == plain@.len(),
            slot <= n,
            n <= o.width,
            n <= roster@.len(),
            slots == filled_slots(roster@, n as nat),
            slots == ted_slots(roster@, o.width as int),
            psize == s.player.size,
            ted_fits(p0, *o, *s),
            p0 == old(plain)@,
            j == filled_slots(roster@, slot as nat).len(),
            j <= players@.len(),
            filled_slots(roster@, slot as nat) == slots.take(j as int),
            j <= slots.len(),
            forall|i: int|
                0 <= i < j ==> {
                    &&& (#[trigger] players@[i]).id == roster@[slots[i]].player_id
                    &&& player_runs_writable(players@[i], schema_runs(s.player))
                    &&& player_texts_writable(players@[i], s.player.texts@) && player_face_fits(players@[i], s.player)
                },
            plain@ == slots_written(p0, *o, *s, slots, players@, j as nat),
            plain@.len() == p0.len(),
        decreases n - slot,
    {
        proof {
            lemma_filled_slots(roster@, (slot + 1) as nat, n as nat);
            lemma_filled_slots(roster@, slot as nat, (slot + 1) as nat);
        }
        let pid = roster[slot].player_id;
        if pid != 0 {
            proof {
                let next = filled_slots(roster@, (slot + 1) as nat);
                assert(next == filled_slots(roster@, slot as nat).push(slot as int));
                assert(next.len() == j + 1);
                assert(next[j as int] == slot);
                assert(next == slots.take(j + 1));
                assert(slots.take(j + 1)[j as int] == slots[j as int]);
                assert(slots[j as int] == slot);
            }
            if j >= players.len() {
                return Err(TexportError::RosterMismatch { slot, roster: pid, player: 0 });
            }
            let p = &players[j];
            if p.id != pid {
                return Err(TexportError::RosterMismatch { slot, roster: pid, player: p.id });
            }
            proof {
                assert((slot + 1) * psize <= o.width * psize) by (nonlinear_arith)
                    requires
                        slot + 1 <= o.width,
                ;
                assert(slot * psize + psize == (slot + 1) * psize) by (nonlinear_arith);
                assert(0 <= slot * psize) by (nonlinear_arith);
                assert(o.players + o.width * psize + TAIL == plain@.len());
                assert(o.players + (slot + 1) * psize <= plain@.len());
            }
            let at = o.players + slot * psize;
            let mut rec = slice_to_vec(slice_subrange(plain.as_slice(), at, at + psize));
            match write_player(p, rec.as_mut_slice(), &s.player) {
                Ok(()) => {},
                Err(e) => {
                    return Err(TexportError::Codec(e));
                },
            }
            put_bytes(plain, at, rec.as_slice());
            j = j + 1;
        } else {
            proof {
                assert(filled_slots(roster@, (slot + 1) as nat) == filled_slots(roster@, slot as nat));
            }
        }
        slot = slot + 1;
    }
    proof {
        assert(slots.take(j as int) =~= slots);
    }
    if j < players.len() {
        return Err(TexportError::RosterMismatch { slot: o.width, roster: 0, player: players[j].id });
    }
    Ok(())
}

/// `t` is the team the plaintext's records hold: the team record read onto
/// a fresh team, then the roster and tactics records applied.
pub open spec fn ted_team_read(plain: Seq<u8>, o: TedOffsets, s: VersionSchema, t: TeamEntry) -> bool {
    exists|t1: TeamEntry, t2: TeamEntry|
        #![trigger team_read_from(t1, plain.subrange(o.team as int, o.team + s.team.size), s.team), roster_applied(t1, t2, plain.subrange(o.roster as int, o.roster + s.roster.size), s.roster)]
        {
            &&& team_read_from(t1, plain.subrange(o.team as int, o.team + s.team.size), s.team)
            &&& roster_applied(t1, t2, plain.subrange(o.roster as int, o.roster + s.roster.size), s.roster)
            &&& tactics_applied(t2, t, plain.subrange(o.tactics as int, o.tactics + s.tactic.size), s.tactic)
        }
}

/// `players` are the filled slots' player records read, in roster order,
/// each record carrying its slot's id.
pub open spec fn ted_players_read(
    plain: Seq<u8>,
    o: TedOffsets,
    s: VersionSchema,
    roster: Seq<RosterSlot>,
    players: Seq<PlayerEntry>,
) -> bool {
    let slots = ted_slots(roster, o.width as int);
    &&& players.len() == slots.len()
    &&& forall|j: int| 0 <= j < players.len() ==> ted_player_ok(plain, o, s, roster, slots[j], #[trigger] players[j])
}

/// `p` is slot `slot`'s player record read, and the record carries the
/// slot's id.
pub open spec fn ted_player_ok(
    plain: Seq<u8>,
    o: TedOffsets,
    s: VersionSchema,
    roster: Seq<RosterSlot>,
    slot: int,
    p: PlayerEntry,
) -> bool {
    &&& record_id_spec(ted_player_record(plain, o, s, slot)) == roster[slot].player_id
    &&& player_read_from(p, ted_player_record(plain, o, s, slot), s.player)
}

/// `t` is the `.ted` file `bytes` of `version` open as: the plaintext under
/// `layout`'s key index retained, and the team and the filled slots' players
/// read from its records.
pub open spec fn ted_opened(
    bytes: Seq<u8>,
    version: PesVersion,
    layout: TexportLayout,
    schema: VersionSchema,
    t: TexportView,
) -> bool {
    let plain = ted_crypt(bytes, layout.key_index as int);
    let o = ted_offsets(layout.size as int, schema);
    &&& t.0 == version
    &&& t.1 == schema
    &&& t.2 == Some((plain, layout))
    &&& t.3 is None
    &&& ted_team_read(plain, o, schema, t.4)
    &&& ted_players_read(plain, o, schema, t.4.roster@, t.5)
}

/// What a texport keeps for the write back.
enum TexportFile {
    /// 18-21: the whole decrypted file (header, key and body) and its layout.
    Ted(Vec<u8>, &'static TexportLayout),
    /// 15-17: the savefile container and its payload offsets.
    Old(SaveContainer, &'static OldTexport),
}

/// An open texport: the retained plaintext (18-21) or container (15-17)
/// plus the decoded team and players.
pub struct Texport {
    version: PesVersion,
    schema: &'static VersionSchema,
    file: TexportFile,
    team: TeamEntry,
    /// Roster order, empty slots skipped.
    players: Vec<PlayerEntry>,
}

/// A texport as a value: its version, its record layouts, the retained
/// plaintext and file layout (18-21) or container and offsets (15-17), the
/// team and the players.
pub type TexportView = (
    PesVersion,
    VersionSchema,
    Option<(Seq<u8>, TexportLayout)>,
    Option<(ContainerView, OldTexport)>,
    TeamEntry,
    Seq<PlayerEntry>,
);

impl View for Texport {
    type V = TexportView;

    closed spec fn view(&self) -> TexportView {
        match self.file {
            TexportFile::Ted(plain, layout) => (
                self.version,
                *self.schema,
                Some((plain@, *layout)),
                None,
                self.team,
                self.players@,
            ),
            TexportFile::Old(container, offsets) => (
                self.version,
                *self.schema,
                None,
                Some((container@, *offsets)),
                self.team,
                self.players@,
            ),
        }
    }
}

/// An 18-21 file: decrypt, then read the records at the derived offsets.
#[verifier::spinoff_prover]
fn open_ted(
    bytes: &[u8],
    version: PesVersion,
    layout: &'static TexportLayout,
    schema: &'static VersionSchema,
) -> (r: Result<Texport, TexportError>)
    requires
        ted_layout_wf(*layout, *schema),
        bytes@.len() == layout.size,
    ensures
        r matches Ok(t) ==> ted_opened(bytes@, version, *layout, *schema, t@) && texport_fits(t@),
        r matches Err(e) ==> e is Codec || e is RosterMismatch,
{
    let o = ted_offsets_of(layout, schema);
    let plain = crypt(bytes, layout.key_index);
    proof {
        lemma_layout_fits(*layout, *schema, plain@);
    }
    let mut team = match read_team(slice_subrange(plain.as_slice(), o.team, o.team + schema.team.size), &schema.team) {
        Ok(t) => t,
        Err(e) => {
            return Err(TexportError::Codec(e));
        },
    };
    let ghost t1 = team;
    match read_roster_into(&mut team, slice_subrange(plain.as_slice(), o.roster, o.roster + schema.roster.size), &schema.roster) {
        Ok(()) => {},
        Err(e) => {
            return Err(TexportError::Codec(e));
        },
    }
    let ghost t2 = team;
    match read_tactics_into(
        &mut team,
        slice_subrange(plain.as_slice(), o.tactics, o.tactics + schema.tactic.size),
        &schema.tactic,
    ) {
        Ok(()) => {},
        Err(e) => {
            return Err(TexportError::Codec(e));
        },
    }
    proof {
        assert(team_read_from(t1, plain@.subrange(o.team as int, o.team + schema.team.size), schema.team));
        assert(roster_applied(t1, t2, plain@.subrange(o.roster as int, o.roster + schema.roster.size), schema.roster));
    }
    let n = if o.width < team.roster.len() {
        o.width
    } else {
        team.roster.len()
    };
    let ghost slots = ted_slots(team.roster@, o.width as int);
    let psize = schema.player.size;
    let plen = plain.len();
    let mut players: Vec<PlayerEntry> = Vec::new();
    let mut slot: usize = 0;
    while slot < n
        invariant
            plen == plain@.len(),
            slot <= n,
            n <= o.width,
            n <= team.roster@.len(),
            slots == filled_slots(team.roster@, n as nat),
            psize == schema.player.size,
            psize >= 4,
            record_schema_wf(schema.player),
            o == ted_offsets(layout.size as int, *schema),
            ted_fits(plain@, o, *schema),
            players@.len() == filled_slots(team.roster@, slot as nat).len(),
            filled_slots(team.roster@, slot as nat) == slots.take(players@.len() as int),
            players@.len() <= slots.len(),
            forall|j: int|
                0 <= j < players@.len() ==> ted_player_ok(plain@, o, *schema, team.roster@, slots[j], #[trigger] players@[j]),
        decreases n - slot,
    {
        proof {
            lemma_filled_slots(team.roster@, (slot + 1) as nat, n as nat);
            lemma_filled_slots(team.roster@, slot as nat, (slot + 1) as nat);
        }
        let pid = team.roster[slot].player_id;
        if pid != 0 {
            let ghost j = players@.len() as int;
            proof {
                let next = filled_slots(team.roster@, (slot + 1) as nat);
                assert(next == filled_slots(team.roster@, slot as nat).push(slot as int));
                assert(next[j] == slot);
                assert(next == slots.take(j + 1));
                assert(slots.take(j + 1)[j] == slots[j]);
                assert((slot + 1) * psize <= o.width * psize) by (nonlinear_arith)
                    requires
                        slot + 1 <= o.width,
                ;
                assert(slot * psize + psize == (slot + 1) * psize) by (nonlinear_arith);
                assert(0 <= slot * psize) by (nonlinear_arith);
            }
            let at = o.players + slot * psize;
            let record = slice_subrange(plain.as_slice(), at, at + psize);
            let id = record_id(record);
            if id != pid {
                return Err(TexportError::RosterMismatch { slot, roster: pid, player: id });
            }
            let ghost before = players@;
            match read_player(record, &schema.player) {
                Ok(p) => {
                    players.push(p);
                },
                Err(e) => {
                    return Err(TexportError::Codec(e));
                },
            }
            proof {
                assert(record@ == ted_player_record(plain@, o, *schema, slots[j]));
                assert forall|k: int| 0 <= k < players@.len() implies ted_player_ok(
                    plain@,
                    o,
                    *schema,
                    team.roster@,
                    slots[k],
                    #[trigger] players@[k],
                ) by {
                    if k < j {
                        assert(players@[k] == before[k]);
                    } else {
                        assert(k == j);
                        assert(slots[k] == slot);
                        assert(team.roster@[slots[k]].player_id == pid);
                        assert(player_read_from(players@[k], record@, schema.player));
                    }
                }
            }
        } else {
            proof {
                assert(filled_slots(team.roster@, (slot + 1) as nat) == filled_slots(team.roster@, slot as nat));
            }
        }
        slot = slot + 1;
    }
    proof {
        assert(slots.take(players@.len() as int) =~= slots);
        assert(tactics_applied(t2, team, plain@.subrange(o.tactics as int, o.tactics + schema.tactic.size), schema.tactic));
        assert(ted_team_read(plain@, o, *schema, team));
    }
    Ok(Texport { version, schema, file: TexportFile::Ted(plain, layout), team, players })
}

/// The fresh plaintext `new` writes the records into: the layout's header,
/// the key from `salt[..32]`, the coach template, the tail, zeros elsewhere.
pub open spec fn ted_template(l: TexportLayout, salt: Seq<u8>, o: TedOffsets) -> Seq<u8> {
    Seq::new(
        l.size as nat,
        |i: int|
            if i < KEY {
                l.header@[i]
            } else if i < HEADER {
                salt[i - KEY]
            } else if o.coach <= i < o.coach + COACH {
                l.coach@[i - o.coach]
            } else if i >= l.size - TAIL {
                l.tail@[i - (l.size - TAIL)]
            } else {
                0u8
            },
    )
}

/// The byte `ted_template` holds at `i`.
fn template_byte(l: &TexportLayout, salt: &[u8; 320], o: &TedOffsets, i: usize) -> (b: u8)
    requires
        i < l.size,
        l.size >= TAIL,
        o.coach + COACH <= usize::MAX,
    ensures
        b == ted_template(*l, salt@, *o)[i as int],
{
    if i < KEY {
        l.header[i]
    } else if i < HEADER {
        salt[i - KEY]
    } else if o.coach <= i && i < o.coach + COACH {
        l.coach[i - o.coach]
    } else if i >= l.size - TAIL {
        l.tail[i - (l.size - TAIL)]
    } else {
        0
    }
}

/// The fresh plaintext of `l`'s files before the records are written.
fn template(l: &TexportLayout, salt: &[u8; 320], o: &TedOffsets) -> (plain: Vec<u8>)
    requires
        l.size >= TAIL,
        o.coach + COACH <= usize::MAX,
    ensures
        plain@ == ted_template(*l, salt@, *o),
{
    let mut plain: Vec<u8> = Vec::new();
    let mut i: usize = 0;
    while i < l.size
        invariant
            i <= l.size,
            l.size >= TAIL,
            o.coach + COACH <= usize::MAX,
            plain@ == ted_template(*l, salt@, *o).take(i as int),
        decreases l.size - i,
    {
        plain.push(template_byte(l, salt, o, i));
        i = i + 1;
        assert(plain@ =~= ted_template(*l, salt@, *o).take(i as int));
    }
    assert(plain@ =~= ted_template(*l, salt@, *o));
    plain
}

/// `texport`'s parts fit together: on 18-21 the plaintext is its layout's
/// size and the layout is filled exactly by the records; on 15-17 the
/// tactics record and every player's records lie inside the payload.
pub open spec fn texport_fits(t: TexportView) -> bool {
    &&& version_schema_wf(t.1)
    &&& t.2 is Some <==> t.3 is None
    &&& match t.2 {
        Some((plain, l)) => ted_layout_wf(l, t.1) && plain.len() == l.size,
        None => true,
    }
    &&& match t.3 {
        Some((c, o)) => old_fits(c.3, o, t.1, t.5.len() as int) && t.1.player.size >= 4 && old_stride(t.1)
            <= usize::MAX,
        None => true,
    }
}

/// The tactics record and `n` players' records lie inside `payload`.
pub open spec fn old_fits(payload: Seq<u8>, o: OldTexport, s: VersionSchema, n: int) -> bool {
    &&& o.tactics_at + s.tactic.size <= payload.len()
    &&& n > 0 ==> old_record_at(o, s, n) <= payload.len()
}

/// The distance between two players in a 15-17 payload: the player record,
/// then its appearance record on versions that keep one.
pub open spec fn old_stride(s: VersionSchema) -> int {
    match s.appearance {
        Some((_, a)) => s.player.size + a.size,
        None => s.player.size as int,
    }
}

impl Texport {
    /// A fresh 18-21 file from the layout's templates: header, coach (id
    /// patched), zero block, tail, a key from `salt[..32]`; `players` in
    /// roster order, ids checked against the roster (`RosterMismatch`).
    /// 15-17 is `NoTemplate`: write by reading a real file and replacing its
    /// team and players.
    #[verifier::spinoff_prover]
    pub fn new(
        version: PesVersion,
        team: TeamEntry,
        players: Vec<PlayerEntry>,
        salt: &[u8; 320],
        tables: &TexportTables,
    ) -> (r: Result<Texport, TexportError>)
        requires
            texport_tables_wf(*tables),
        ensures
            layout_for(tables.layouts@, version) is None ==> r == Err::<Texport, TexportError>(
                TexportError::NoTemplate(version),
            ),
            layout_for(tables.layouts@, version) matches Some(l) ==> {
                let s = texport_schema(*tables, version);
                let o = ted_offsets(l.size as int, s);
                &&& r is Ok <==> ted_team_writable(team, s) && ted_players_fit(team.roster@, o.width as int, s, players@)
                &&& r matches Ok(t) ==> t@ == (
                    version,
                    s,
                    Some((ted_written(ted_template(l, salt@, o), o, s, team, players@), l)),
                    None::<(ContainerView, OldTexport)>,
                    team,
                    players@,
                )
                &&& r matches Err(e) ==> e is Codec || e is RosterMismatch
            },
    {
        let layout = match find_layout(tables.layouts, version) {
            Some(l) => l,
            None => {
                return Err(TexportError::NoTemplate(version));
            },
        };
        let schema = texport_schema_for(tables, version);
        proof {
            lemma_found_layout(*tables, version);
            assert(layout_for(tables.layouts@, version) == Some(*layout));
        }
        let o = ted_offsets_of(layout, schema);
        let mut plain = template(layout, salt, &o);
        proof {
            lemma_layout_fits(*layout, *schema, plain@);
        }
        match write_ted_team(&mut plain, &o, schema, &team) {
            Ok(()) => {},
            Err(e) => {
                return Err(TexportError::Codec(e));
            },
        }
        match write_ted_players(&mut plain, &o, schema, &team.roster, players.as_slice()) {
            Ok(()) => {},
            Err(e) => {
                return Err(e);
            },
        }
        Ok(Texport { version, schema, file: TexportFile::Ted(plain, layout), team, players })
    }

    /// The game version this texport belongs to.
    pub fn version(&self) -> (v: PesVersion)
        ensures
            v == self@.0,
    {
        self.version
    }

    /// The team (team, roster and tactics joined on 18-21; the tactics
    /// record's id and contents alone on 15-17).
    pub fn team(&self) -> (t: &TeamEntry)
        ensures
            *t == self@.4,
    {
        &self.team
    }

    /// Every player, in roster order, empty slots skipped.
    pub fn players(&self) -> (p: &[PlayerEntry])
        ensures
            p@ == self@.5,
    {
        self.players.as_slice()
    }

    /// The team for editing.
    pub fn team_mut(&mut self) -> (t: &mut TeamEntry)
        ensures
            *t == old(self)@.4,
            final(self)@ == (old(self)@.0, old(self)@.1, old(self)@.2, old(self)@.3, *final(t), old(self)@.5),
    {
        &mut self.team
    }

    /// Every player for editing, in roster order.
    pub fn players_mut(&mut self) -> (p: &mut [PlayerEntry])
        ensures
            p@ == old(self)@.5,
            final(self)@ == (old(self)@.0, old(self)@.1, old(self)@.2, old(self)@.3, old(self)@.4, final(p)@),
    {
        self.players.as_mut_slice()
    }
}

/// The tables cover every version, and `v`'s player records hold an id and
/// step through a payload without overflow.
proof fn lemma_tables_schema(t: TexportTables, v: PesVersion)
    requires
        texport_tables_wf(t),
    ensures
        schemas_cover(t.schemas@),
        texport_schema(t, v).player.size >= 4,
        old_stride(texport_schema(t, v)) <= usize::MAX,
        version_schema_wf(texport_schema(t, v)),
{
    reveal(texport_tables_wf);
    reveal(texport_schema);
    lemma_schema_sizes(t.schemas@, v);
}

/// `v`'s record layouts hold an id per player record and step without
/// overflow.
proof fn lemma_schema_sizes(schemas: Seq<VersionSchema>, v: PesVersion)
    requires
        texport_schemas_wf(schemas),
    ensures
        schemas[schema_index(schemas, v)].player.size >= 4,
        old_stride(schemas[schema_index(schemas, v)]) <= usize::MAX,
        version_schema_wf(schemas[schema_index(schemas, v)]),
{
    crate::file::lemma_chosen_schema_wf(schemas, v);
    let w = schema_index(schemas, v);
    assert(schemas[w].player.size >= 4);
}

/// The record layouts of `v`.
fn texport_schema_for(tables: &TexportTables, v: PesVersion) -> (s: &'static VersionSchema)
    requires
        texport_tables_wf(*tables),
    ensures
        *s == texport_schema(*tables, v),
        version_schema_wf(*s),
        s.player.size >= 4,
        old_stride(*s) <= usize::MAX,
{
    proof {
        lemma_tables_schema(*tables, v);
        reveal(texport_schema);
    }
    schema_for(tables.schemas, v)
}

/// The layout the tables hold for `v` is `v`'s and fits `v`'s records.
proof fn lemma_found_layout(t: TexportTables, v: PesVersion)
    requires
        texport_tables_wf(t),
    ensures
        layout_for(t.layouts@, v) matches Some(l) ==> l.version == v && ted_layout_wf(l, texport_schema(t, v)),
{
    reveal(texport_tables_wf);
    lemma_layout_index_facts(t.layouts@, v, 0);
    match layout_index_from(t.layouts@, v, 0) {
        Some(k) => {
            assert(t.layouts@[k].version == v);
            assert(ted_layout_wf(t.layouts@[k], texport_schema(t, t.layouts@[k].version)));
        },
        None => {},
    }
}

/// A player record's first byte in a 15-17 payload.
#[verifier::opaque]
pub open spec fn old_record_at(o: OldTexport, s: VersionSchema, i: int) -> int {
    o.players_at + i * old_stride(s)
}

/// Records follow each other at the stride, the first at `players_at`, and
/// record `i` starts at least `i` bytes after it.
proof fn lemma_old_record_step(o: OldTexport, s: VersionSchema, i: int)
    requires
        0 <= i,
        old_stride(s) >= 1,
    ensures
        old_record_at(o, s, 0) == o.players_at,
        old_record_at(o, s, i + 1) == old_record_at(o, s, i) + old_stride(s),
        old_record_at(o, s, i) >= o.players_at + i,
{
    reveal(old_record_at);
    let st = old_stride(s);
    assert((i + 1) * st == i * st + st) by (nonlinear_arith);
    assert(i * st >= i) by (nonlinear_arith)
        requires
            0 <= i,
            st >= 1,
    ;
    assert(0 * st == 0);
}

/// Record `i` continues the team's run: it lies inside the payload and
/// carries the team's next consecutive id (team id x 100 + 1 + i).
pub open spec fn old_record_continues(payload: Seq<u8>, o: OldTexport, s: VersionSchema, team_id: u32, i: int) -> bool {
    let at = old_record_at(o, s, i);
    let id = record_id_spec(payload.subrange(at, at + s.player.size));
    &&& at + s.player.size <= payload.len()
    &&& id != 0
    &&& id == team_id * 100 + 1 + i
}

/// `p` is record `i`'s player: the player record read onto a fresh player,
/// then, on versions that keep one, the appearance record after it applied.
pub open spec fn old_player_ok(payload: Seq<u8>, o: OldTexport, s: VersionSchema, i: int, p: PlayerEntry) -> bool {
    let at = old_record_at(o, s, i);
    &&& at + old_stride(s) <= payload.len()
    &&& exists|p0: PlayerEntry|
        {
            &&& #[trigger] player_read_from(p0, payload.subrange(at, at + s.player.size), s.player)
            &&& match s.appearance {
                None => p == p0,
                Some((_, a)) => {
                    let arec = payload.subrange(at + s.player.size, at + s.player.size + a.size);
                    &&& player_runs_in_range(schema_runs(a))
                    &&& player_texts_decode(arec, a.texts@)
                    &&& player_read_post(p0, p, arec, a)
                },
            }
        }
}

/// `t` is the tactics record read onto a fresh team carrying the record's
/// id.
pub open spec fn old_team_read(payload: Seq<u8>, o: OldTexport, s: VersionSchema, t: TeamEntry) -> bool {
    let x = payload.subrange(o.tactics_at as int, o.tactics_at + s.tactic.size);
    exists|d: TeamEntry| d.is_default() && tactics_applied(TeamEntry { id: record_id_spec(x), ..d }, t, x, s.tactic)
}

/// `t` is the 15-17 container `c` open as: the container retained, the team
/// read from the tactics record, and one player per record of the team's
/// consecutive-id run.
pub open spec fn old_opened(c: ContainerView, tables: TexportTables, t: TexportView) -> bool {
    let v = view_version(c);
    let s = texport_schema(tables, v);
    &&& old_for(tables.old@, v) matches Some(o)
    &&& t.0 == v
    &&& t.1 == s
    &&& t.2 is None
    &&& t.3 == Some((c, o))
    &&& old_team_read(c.3, o, s, t.4)
    &&& forall|i: int| 0 <= i < t.5.len() ==> #[trigger] old_record_continues(c.3, o, s, t.4.id, i)
    &&& forall|i: int| 0 <= i < t.5.len() ==> old_player_ok(c.3, o, s, i, #[trigger] t.5[i])
    &&& !old_record_continues(c.3, o, s, t.4.id, t.5.len() as int)
}

/// Record `i`'s player, its record at `at` known to continue the run.
fn read_old_player(payload: &[u8], old: &OldTexport, schema: &VersionSchema, i: usize, at: usize) -> (r: Result<
    PlayerEntry,
    TexportError,
>)
    requires
        version_schema_wf(*schema),
        at == old_record_at(*old, *schema, i as int),
        at + schema.player.size <= payload@.len(),
    ensures
        r matches Ok(p) ==> old_player_ok(payload@, *old, *schema, i as int, p),
        r matches Err(e) ==> e is Codec,
{
    let plen = payload.len();
    let psize = schema.player.size;
    let record = slice_subrange(payload, at, at + psize);
    let mut player = match read_player(record, &schema.player) {
        Ok(p) => p,
        Err(e) => {
            return Err(TexportError::Codec(e));
        },
    };
    let ghost p0 = player;
    proof {
        assert(player_read_from(p0, record@, schema.player));
    }
    match &schema.appearance {
        Some((_, appearance)) => {
            let start = at + psize;
            if start > plen || plen - start < appearance.size {
                let got = if plen >= start {
                    plen - start
                } else {
                    0
                };
                return Err(TexportError::Codec(CodecError::RecordSize { expected: appearance.size, got }));
            }
            let arec = slice_subrange(payload, start, start + appearance.size);
            match read_player_into(&mut player, arec, appearance) {
                Ok(()) => {},
                Err(e) => {
                    return Err(TexportError::Codec(e));
                },
            }
        },
        None => {},
    }
    Ok(player)
}

/// The players of a 15-17 payload: one per record of the team's
/// consecutive-id run, each with its appearance record applied where the
/// version keeps one.
#[verifier::spinoff_prover]
fn read_old_players(payload: &[u8], old: &OldTexport, schema: &VersionSchema, team_id: u32) -> (r: Result<
    Vec<PlayerEntry>,
    TexportError,
>)
    requires
        version_schema_wf(*schema),
        schema.player.size >= 4,
        old_stride(*schema) <= usize::MAX,
    ensures
        r matches Ok(players) ==> {
            &&& forall|k: int|
                0 <= k < players@.len() ==> #[trigger] old_record_continues(payload@, *old, *schema, team_id, k)
            &&& forall|k: int| 0 <= k < players@.len() ==> old_player_ok(payload@, *old, *schema, k, #[trigger] players@[k])
            &&& !old_record_continues(payload@, *old, *schema, team_id, players@.len() as int)
        },
        r matches Err(e) ==> e is Codec,
{
    let plen = payload.len();
    let psize = schema.player.size;
    let stride = match &schema.appearance {
        Some((_, a)) => psize + a.size,
        None => psize,
    };
    let mut players: Vec<PlayerEntry> = Vec::new();
    let mut at: usize = old.players_at;
    let mut i: usize = 0;
    let mut more = true;
    proof {
        lemma_old_record_step(*old, *schema, 0);
    }
    while more
        invariant
            plen == payload@.len(),
            psize == schema.player.size,
            psize >= 4,
            stride == old_stride(*schema),
            version_schema_wf(*schema),
            i == players@.len(),
            more ==> at == old_record_at(*old, *schema, i as int),
            i <= plen + 1,
            forall|k: int| 0 <= k < players@.len() ==> #[trigger] old_record_continues(payload@, *old, *schema, team_id, k),
            forall|k: int| 0 <= k < players@.len() ==> old_player_ok(payload@, *old, *schema, k, #[trigger] players@[k]),
            !more ==> !old_record_continues(payload@, *old, *schema, team_id, i as int),
        decreases plen + 1 - i, if more {
            1int
        } else {
            0int
        },
    {
        if at > plen || plen - at < psize {
            more = false;
        } else {
            let record = slice_subrange(payload, at, at + psize);
            let id = record_id(record);
            let expected: u128 = (team_id as u128) * 100 + 1 + (i as u128);
            if id == 0 || (id as u128) != expected {
                more = false;
            } else {
                proof {
                    assert(record@ == payload@.subrange(at as int, at + psize));
                    assert(old_record_continues(payload@, *old, *schema, team_id, i as int));
                }
                let ghost before = players@;
                let player = match read_old_player(payload, old, schema, i, at) {
                    Ok(p) => p,
                    Err(e) => {
                        return Err(e);
                    },
                };
                players.push(player);
                proof {
                    assert forall|k: int|
                        0 <= k < players@.len() implies old_player_ok(payload@, *old, *schema, k, #[trigger] players@[k]) by {
                        if k < i {
                            assert(players@[k] == before[k]);
                        } else {
                            assert(players@[k] == player);
                        }
                    }
                    lemma_old_record_step(*old, *schema, i as int);
                }
                i = i + 1;
                if at > usize::MAX - stride {
                    more = false;
                } else {
                    at = at + stride;
                }
            }
        }
    }
    Ok(players)
}

/// The players read from a payload's run lie inside it with their
/// appearance records.
proof fn lemma_old_fits(payload: Seq<u8>, o: OldTexport, s: VersionSchema, team_id: u32, players: Seq<PlayerEntry>)
    requires
        version_schema_wf(s),
        s.player.size >= 4,
        o.tactics_at + s.tactic.size <= payload.len(),
        forall|k: int| 0 <= k < players.len() ==> old_player_ok(payload, o, s, k, #[trigger] players[k]),
    ensures
        old_fits(payload, o, s, players.len() as int),
{
    let n = players.len() as int;
    if n > 0 {
        let p = players[n - 1];
        assert(old_player_ok(payload, o, s, n - 1, p));
        lemma_old_record_step(o, s, n - 1);
    }
}

/// A 15-17 file: the container's payload holds the tactics record and the
/// consecutive player records (15/16: a player record then its appearance
/// record per player); the team and roster records are unmeasured, so the
/// team carries the tactics record's id and an empty roster.
#[verifier::spinoff_prover]
fn open_old(container: SaveContainer, tables: &TexportTables) -> (r: Result<Texport, TexportError>)
    requires
        texport_tables_wf(*tables),
    ensures
        old_for(tables.old@, view_version(container@)) is None ==> r == Err::<Texport, TexportError>(
            TexportError::UnknownVersion,
        ),
        match old_for(tables.old@, view_version(container@)) {
            Some(o) => {
                let tsize = texport_schema(*tables, view_version(container@)).tactic.size;
                let len = container@.3.len();
                o.tactics_at + tsize > len ==> r == Err::<Texport, TexportError>(
                    TexportError::Codec(
                        CodecError::RecordSize {
                            expected: tsize,
                            got: if len >= o.tactics_at {
                                (len - o.tactics_at) as usize
                            } else {
                                0
                            },
                        },
                    ),
                )
            },
            None => true,
        },
        r matches Ok(t) ==> old_opened(container@, *tables, t@) && texport_fits(t@),
        r matches Err(e) ==> e is UnknownVersion || e is Codec,
{
    let version = container.version();
    let schema = texport_schema_for(tables, version);
    let old = match find_old(tables.old, version) {
        Some(o) => o,
        None => {
            return Err(TexportError::UnknownVersion);
        },
    };
    proof {
        assert(view_version(container@) == version);
        lemma_old_index_facts(tables.old@, version, 0);
        assert(old_for(tables.old@, version) == Some(*old));
    }
    let team = match read_old_team(container.payload.as_slice(), old, schema) {
        Ok(t) => t,
        Err(e) => {
            return Err(e);
        },
    };
    let players = match read_old_players(container.payload.as_slice(), old, schema, team.id) {
        Ok(p) => p,
        Err(e) => {
            return Err(e);
        },
    };
    proof {
        lemma_old_fits(container@.3, *old, *schema, team.id, players@);
    }
    Ok(
        Texport {
            version,
            schema,
            file: TexportFile::Old(container, old),
            team,
            players,
        },
    )
}

/// The team of a 15-17 payload: its tactics record read onto a fresh team
/// carrying the record's id.
fn read_old_team(payload: &[u8], old: &OldTexport, schema: &VersionSchema) -> (r: Result<TeamEntry, TexportError>)
    requires
        version_schema_wf(*schema),
    ensures
        old.tactics_at + schema.tactic.size > payload@.len() ==> r == Err::<TeamEntry, TexportError>(
            TexportError::Codec(
                CodecError::RecordSize {
                    expected: schema.tactic.size,
                    got: if payload@.len() >= old.tactics_at {
                        (payload@.len() - old.tactics_at) as usize
                    } else {
                        0
                    },
                },
            ),
        ),
        r matches Ok(t) ==> old_team_read(payload@, *old, *schema, t) && old.tactics_at + schema.tactic.size
            <= payload@.len(),
        r matches Err(e) ==> e is Codec,
{
    let plen = payload.len();
    let tsize = schema.tactic.size;
    if old.tactics_at > plen || plen - old.tactics_at < tsize {
        let got = if plen >= old.tactics_at {
            plen - old.tactics_at
        } else {
            0
        };
        return Err(TexportError::Codec(CodecError::RecordSize { expected: tsize, got }));
    }
    let tactics = slice_subrange(payload, old.tactics_at, old.tactics_at + tsize);
    let mut team = TeamEntry::default();
    let ghost d = team;
    team.id = record_id(tactics);
    let ghost t0 = team;
    proof {
        assert(t0 == (TeamEntry { id: record_id_spec(tactics@), ..d }));
    }
    match read_tactics_into(&mut team, tactics, &schema.tactic) {
        Ok(()) => {},
        Err(e) => {
            return Err(TexportError::Codec(e));
        },
    }
    proof {
        assert(tactics_applied(t0, team, tactics@, schema.tactic));
    }
    Ok(team)
}

/// Record `i` starts no later than record `n` for `i <= n`.
proof fn lemma_old_record_le(o: OldTexport, s: VersionSchema, i: int, n: int)
    requires
        0 <= i <= n,
        old_stride(s) >= 0,
    ensures
        old_record_at(o, s, i) <= old_record_at(o, s, n),
{
    reveal(old_record_at);
    let st = old_stride(s);
    assert(i * st <= n * st) by (nonlinear_arith)
        requires
            0 <= i <= n,
            st >= 0,
    ;
}

/// `players[0..n]` written into their 15-17 records: each player record,
/// then its appearance record on versions that keep one.
pub open spec fn old_players_written(
    payload: Seq<u8>,
    o: OldTexport,
    s: VersionSchema,
    players: Seq<PlayerEntry>,
    n: nat,
) -> Seq<u8>
    decreases n,
{
    if n == 0 {
        payload
    } else {
        let prev = old_players_written(payload, o, s, players, (n - 1) as nat);
        let at = old_record_at(o, s, n - 1);
        let p1 = patch_at(prev, at, player_written(players[n - 1], prev.subrange(at, at + s.player.size), s.player));
        match s.appearance {
            Some((_, a)) => {
                let at2 = at + s.player.size;
                patch_at(p1, at2, player_written(players[n - 1], p1.subrange(at2, at2 + a.size), a))
            },
            None => p1,
        }
    }
}

/// The tactics record, then every player's records, written into the
/// payload.
pub open spec fn old_written(payload: Seq<u8>, o: OldTexport, s: VersionSchema, t: TeamEntry, players: Seq<PlayerEntry>) -> Seq<u8> {
    let x = patch_at(
        payload,
        o.tactics_at as int,
        write_runs_spec(
            payload.subrange(o.tactics_at as int, o.tactics_at + s.tactic.size),
            run_writes(|g: TacticsField| tactics_value(t, g), tactics_runs_spec(s.tactic)),
        ),
    );
    old_players_written(x, o, s, players, players.len())
}

/// Every player can be written into its player record and, where the
/// version keeps one, its appearance record.
pub open spec fn old_players_writable(s: VersionSchema, players: Seq<PlayerEntry>) -> bool {
    forall|i: int|
        0 <= i < players.len() ==> {
            &&& player_runs_writable(#[trigger] players[i], schema_runs(s.player))
            &&& player_texts_writable(players[i], s.player.texts@) && player_face_fits(players[i], s.player)
            &&& match s.appearance {
                Some((_, a)) => player_runs_writable(players[i], schema_runs(a)) && player_texts_writable(
                    players[i],
                    a.texts@,
                ) && player_face_fits(players[i], a),
                None => true,
            }
        }
}

/// Writes the tactics record and every player's records into a 15-17
/// payload.
fn write_old_records(
    payload: &mut Vec<u8>,
    o: &OldTexport,
    s: &VersionSchema,
    team: &TeamEntry,
    players: &[PlayerEntry],
) -> (r: Result<(), CodecError>)
    requires
        version_schema_wf(*s),
        s.player.size >= 4,
        old_stride(*s) <= usize::MAX,
        old_fits(old(payload)@, *o, *s, players@.len() as int),
    ensures
        final(payload)@.len() == old(payload)@.len(),
        r is Ok <==> runs_writable(|g: TacticsField| tactics_value(*team, g), tactics_runs_spec(s.tactic))
            && old_players_writable(*s, players@),
        r is Ok ==> final(payload)@ == old_written(old(payload)@, *o, *s, *team, players@),
{
    let ghost p0 = payload@;
    let plen = payload.len();
    let mut rec = slice_to_vec(slice_subrange(payload.as_slice(), o.tactics_at, o.tactics_at + s.tactic.size));
    match write_tactics(team, rec.as_mut_slice(), &s.tactic) {
        Ok(()) => {},
        Err(e) => {
            return Err(e);
        },
    }
    put_bytes(payload, o.tactics_at, rec.as_slice());
    let ghost x = payload@;
    let n = players.len();
    let psize = s.player.size;
    let stride = match &s.appearance {
        Some((_, a)) => psize + a.size,
        None => psize,
    };
    let mut at = o.players_at;
    let mut i: usize = 0;
    proof {
        lemma_old_record_step(*o, *s, 0);
    }
    while i < n
        invariant
            i <= n,
            n == players@.len(),
            plen == payload@.len(),
            plen == p0.len(),
            p0 == old(payload)@,
            psize == s.player.size,
            psize >= 4,
            stride == old_stride(*s),
            version_schema_wf(*s),
            old_fits(p0, *o, *s, n as int),
            i < n ==> at == old_record_at(*o, *s, i as int),
            payload@ == old_players_written(x, *o, *s, players@, i as nat),
            forall|k: int|
                0 <= k < i ==> {
                    &&& player_runs_writable(#[trigger] players@[k], schema_runs(s.player))
                    &&& player_texts_writable(players@[k], s.player.texts@) && player_face_fits(players@[k], s.player)
                    &&& match s.appearance {
                        Some((_, a)) => player_runs_writable(players@[k], schema_runs(a))
                            && player_texts_writable(players@[k], a.texts@) && player_face_fits(players@[k], a),
                        None => true,
                    }
                },
        decreases n - i,
    {
        proof {
            lemma_old_record_step(*o, *s, i as int);
            lemma_old_record_le(*o, *s, i as int + 1, n as int);
        }
        let mut rec = slice_to_vec(slice_subrange(payload.as_slice(), at, at + psize));
        match write_player(&players[i], rec.as_mut_slice(), &s.player) {
            Ok(()) => {},
            Err(e) => {
                return Err(e);
            },
        }
        put_bytes(payload, at, rec.as_slice());
        match &s.appearance {
            Some((_, appearance)) => {
                let at2 = at + psize;
                let mut rec = slice_to_vec(slice_subrange(payload.as_slice(), at2, at2 + appearance.size));
                match write_player(&players[i], rec.as_mut_slice(), appearance) {
                    Ok(()) => {},
                    Err(e) => {
                        return Err(e);
                    },
                }
                put_bytes(payload, at2, rec.as_slice());
            },
            None => {},
        }
        i = i + 1;
        if i < n {
            at = at + stride;
        }
    }
    Ok(())
}

impl Texport {
    /// The records re-encoded into the plaintext (unmodeled bytes as read),
    /// then encrypted: XOR with the file's own key on 18-21 (`salt` is unused
    /// on that path), the container with `salt` on 15-17.
    #[verifier::spinoff_prover]
    pub fn to_bytes(&self, salt: &[u8; 320]) -> (r: Result<Vec<u8>, TexportError>)
        requires
            texport_fits(self@),
        ensures
            match self@.2 {
                Some((plain, l)) => {
                    let o = ted_offsets(l.size as int, self@.1);
                    &&& r is Ok <==> ted_team_writable(self@.4, self@.1) && ted_players_fit(
                        self@.4.roster@,
                        o.width as int,
                        self@.1,
                        self@.5,
                    )
                    &&& r matches Ok(out) ==> out@ == ted_crypt(
                        ted_written(plain, o, self@.1, self@.4, self@.5),
                        l.key_index as int,
                    )
                    &&& r matches Err(e) ==> e is Codec || e is RosterMismatch
                },
                None => true,
            },
            match self@.3 {
                Some((c, o)) => {
                    let writable = runs_writable(
                        |g: TacticsField| tactics_value(self@.4, g),
                        tactics_runs_spec(self@.1.tactic),
                    ) && old_players_writable(self@.1, self@.5);
                    &&& (!writable ==> (r matches Err(TexportError::Codec(_))))
                    &&& writable ==> match to_bytes_spec(
                        with_payload(c, old_written(c.3, o, self@.1, self@.4, self@.5)),
                        salt@,
                    ) {
                        Ok(b) => r matches Ok(out) && out@ == b,
                        Err(e) => r == Err::<Vec<u8>, TexportError>(TexportError::Container(e)),
                    }
                },
                None => true,
            },
    {
        match &self.file {
            TexportFile::Ted(plaintext, layout) => {
                let o = ted_offsets_of(layout, self.schema);
                let mut plain = slice_to_vec(plaintext.as_slice());
                proof {
                    lemma_layout_fits(**layout, *self.schema, plain@);
                }
                match write_ted_team(&mut plain, &o, self.schema, &self.team) {
                    Ok(()) => {},
                    Err(e) => {
                        return Err(TexportError::Codec(e));
                    },
                }
                match write_ted_players(&mut plain, &o, self.schema, &self.team.roster, self.players.as_slice()) {
                    Ok(()) => {},
                    Err(e) => {
                        return Err(e);
                    },
                }
                Ok(crypt(plain.as_slice(), layout.key_index))
            },
            TexportFile::Old(container, offsets) => {
                let mut payload = slice_to_vec(container.payload.as_slice());
                match write_old_records(&mut payload, offsets, self.schema, &self.team, self.players.as_slice()) {
                    Ok(()) => {},
                    Err(e) => {
                        return Err(TexportError::Codec(e));
                    },
                }
                let out = SaveContainer {
                    scheme: container.scheme,
                    description: slice_to_vec(container.description.as_slice()),
                    logo: slice_to_vec(container.logo.as_slice()),
                    payload,
                    identifier: slice_to_vec(container.identifier.as_slice()),
                    serial: slice_to_vec(container.serial.as_slice()),
                };
                match out.to_bytes(salt) {
                    Ok(b) => Ok(b),
                    Err(e) => Err(TexportError::Container(e)),
                }
            },
        }
    }
}

/// Layout `k` of the tables fits its version's records.
proof fn lemma_layout_k_wf(t: TexportTables, k: int)
    requires
        texport_tables_wf(t),
        0 <= k < t.layouts@.len(),
    ensures
        ted_layout_wf(t.layouts@[k], texport_schema(t, t.layouts@[k].version)),
{
    reveal(texport_tables_wf);
}

/// `bytes` fits layout `k`: the size matches and, decrypted under its key
/// index, the team, roster and tactics records carry one id.
pub open spec fn ted_candidate(bytes: Seq<u8>, t: TexportTables, k: int) -> bool {
    let l = t.layouts@[k];
    &&& bytes.len() == l.size
    &&& ted_ids_agree(
        ted_crypt(bytes, l.key_index as int),
        ted_offsets(l.size as int, texport_schema(t, l.version)),
    )
}

/// Layout `k` is the only one `bytes` fits.
pub open spec fn ted_sole(bytes: Seq<u8>, t: TexportTables, k: int) -> bool {
    &&& 0 <= k < t.layouts@.len()
    &&& ted_candidate(bytes, t, k)
    &&& forall|m: int| 0 <= m < t.layouts@.len() && m != k ==> !#[trigger] ted_candidate(bytes, t, m)
}

/// What opening `bytes` as a `.ted` file of `version` under `layout` gives:
/// `WrongSize` for another size, else the file read from its records.
pub open spec fn ted_outcome(
    bytes: Seq<u8>,
    version: PesVersion,
    layout: TexportLayout,
    schema: VersionSchema,
    r: Result<Texport, TexportError>,
) -> bool {
    &&& bytes.len() != layout.size ==> r == Err::<Texport, TexportError>(
        TexportError::WrongSize { version, expected: layout.size, actual: bytes.len() as usize },
    )
    &&& bytes.len() == layout.size ==> {
        &&& r matches Ok(x) ==> ted_opened(bytes, version, layout, schema, x@) && texport_fits(x@)
        &&& r matches Err(e) ==> e is Codec || e is RosterMismatch
    }
}

/// What opening `bytes` as a 15-17 container gives: the container's own
/// error (`UnknownVersion` for an unrecognized one where `unknown` says
/// so), else the file read from its payload.
pub open spec fn old_outcome(
    bytes: Seq<u8>,
    keys: Seq<MasterKey>,
    t: TexportTables,
    unknown: bool,
    r: Result<Texport, TexportError>,
) -> bool {
    match decrypt_spec(bytes, keys) {
        Ok(c) => {
            &&& old_for(t.old@, view_version(c)) is None ==> r == Err::<Texport, TexportError>(
                TexportError::UnknownVersion,
            )
            &&& r matches Ok(x) ==> old_opened(c, t, x@) && texport_fits(x@)
            &&& r matches Err(e) ==> e is UnknownVersion || e is Codec
        },
        Err(e) => if unknown && e == ContainerError::Unrecognized {
            r == Err::<Texport, TexportError>(TexportError::UnknownVersion)
        } else {
            r == Err::<Texport, TexportError>(TexportError::Container(e))
        },
    }
}

/// Whether `bytes` fits layout `layout` of the tables.
fn is_candidate(bytes: &[u8], tables: &TexportTables, layout: &'static TexportLayout) -> (b: bool)
    requires
        texport_tables_wf(*tables),
        exists|k: int| 0 <= k < tables.layouts@.len() && tables.layouts@[k] == *layout,
    ensures
        forall|k: int| 0 <= k < tables.layouts@.len() && tables.layouts@[k] == *layout ==> (b == ted_candidate(bytes@, *tables, k)),
{
    if bytes.len() != layout.size {
        return false;
    }
    let schema = texport_schema_for(tables, layout.version);
    proof {
        let k = choose|k: int| 0 <= k < tables.layouts@.len() && tables.layouts@[k] == *layout;
        lemma_layout_k_wf(*tables, k);
    }
    let o = ted_offsets_of(layout, schema);
    let plain = crypt(bytes, layout.key_index);
    proof {
        lemma_layout_fits(*layout, *schema, plain@);
    }
    ids_agree(plain.as_slice(), &o, schema)
}

impl Texport {
    /// `version = None` detects: by size and record ids for 18-21 (20 and 21
    /// share a size, so each layout's key index is tried and the one whose
    /// team, roster and tactics record ids agree wins), else the container's
    /// own version (`UnknownVersion` when no layout fits alone and the bytes
    /// are no container). An explicit 15-17 `version` defers to the
    /// container's own.
    #[verifier::spinoff_prover]
    pub fn from_bytes(
        bytes: &[u8],
        version: Option<PesVersion>,
        keys: &[MasterKey],
        tables: &TexportTables,
    ) -> (r: Result<Texport, TexportError>)
        requires
            texport_tables_wf(*tables),
        ensures
            match version {
                Some(v) => match layout_for(tables.layouts@, v) {
                    Some(l) => ted_outcome(bytes@, v, l, texport_schema(*tables, v), r),
                    None => old_outcome(bytes@, keys@, *tables, false, r),
                },
                None => {
                    &&& forall|k: int| #[trigger] ted_sole(bytes@, *tables, k) ==> ted_outcome(
                        bytes@,
                        tables.layouts@[k].version,
                        tables.layouts@[k],
                        texport_schema(*tables, tables.layouts@[k].version),
                        r,
                    )
                    &&& (forall|k: int| !#[trigger] ted_sole(bytes@, *tables, k)) ==> old_outcome(
                        bytes@,
                        keys@,
                        *tables,
                        true,
                        r,
                    )
                },
            },
    {
        match version {
            Some(v) => {
                proof {
                    lemma_found_layout(*tables, v);
                    lemma_layout_index_facts(tables.layouts@, v, 0);
                }
                match find_layout(tables.layouts, v) {
                    Some(layout) => {
                        if bytes.len() != layout.size {
                            return Err(TexportError::WrongSize { version: v, expected: layout.size, actual: bytes.len() });
                        }
                        let schema = texport_schema_for(tables, v);
                        open_ted(bytes, v, layout, schema)
                    },
                    None => match SaveContainer::decrypt(bytes, keys) {
                        Ok(c) => open_old(c, tables),
                        Err(e) => Err(TexportError::Container(e)),
                    },
                }
            },
            None => {
                let n = tables.layouts.len();
                let mut count: usize = 0;
                let mut found: usize = 0;
                let ghost mut second: int = 0;
                let mut k: usize = 0;
                while k < n
                    invariant
                        k <= n,
                        n == tables.layouts@.len(),
                        texport_tables_wf(*tables),
                        count <= 2,
                        count == 0 ==> forall|m: int| 0 <= m < k ==> !#[trigger] ted_candidate(bytes@, *tables, m),
                        count == 1 ==> found < k && ted_candidate(bytes@, *tables, found as int) && forall|m: int|
                            0 <= m < k && m != found ==> !#[trigger] ted_candidate(bytes@, *tables, m),
                        count == 2 ==> found < n && 0 <= second < n && second != found && ted_candidate(
                            bytes@,
                            *tables,
                            found as int,
                        ) && ted_candidate(bytes@, *tables, second),
                    decreases n - k,
                {
                    if is_candidate(bytes, tables, &tables.layouts[k]) {
                        if count == 0 {
                            found = k;
                            count = 1;
                        } else if count == 1 {
                            proof {
                                second = k as int;
                            }
                            count = 2;
                        }
                    }
                    k = k + 1;
                }
                if count == 1 {
                    proof {
                        assert(ted_sole(bytes@, *tables, found as int));
                        assert forall|j: int| #[trigger] ted_sole(bytes@, *tables, j) implies j == found by {}
                        lemma_layout_k_wf(*tables, found as int);
                    }
                    let layout = &tables.layouts[found];
                    let schema = texport_schema_for(tables, layout.version);
                    open_ted(bytes, layout.version, layout, schema)
                } else {
                    proof {
                        assert forall|j: int| !#[trigger] ted_sole(bytes@, *tables, j) by {
                            if ted_sole(bytes@, *tables, j) {
                                if count == 0 {
                                    assert(!ted_candidate(bytes@, *tables, j));
                                } else {
                                    assert(j == found || j == second);
                                }
                            }
                        }
                    }
                    match SaveContainer::decrypt(bytes, keys) {
                        Ok(c) => open_old(c, tables),
                        Err(ContainerError::Unrecognized) => Err(TexportError::UnknownVersion),
                        Err(e) => Err(TexportError::Container(e)),
                    }
                }
            },
        }
    }
}

/// Facts of the first-offsets search.
proof fn lemma_old_index_facts(old: Seq<OldTexport>, v: PesVersion, k: int)
    requires
        0 <= k,
    ensures
        match old_index_from(old, v, k) {
            Some(j) => k <= j < old.len() && old[j].version == v,
            None => forall|m: int| k <= m < old.len() ==> (#[trigger] old[m]).version != v,
        },
    decreases old.len() - k,
{
    if k < old.len() && old[k].version != v {
        lemma_old_index_facts(old, v, k + 1);
    }
}

/// Facts of the first-layout search.
proof fn lemma_layout_index_facts(layouts: Seq<TexportLayout>, v: PesVersion, k: int)
    requires
        0 <= k,
    ensures
        match layout_index_from(layouts, v, k) {
            Some(j) => k <= j < layouts.len() && layouts[j].version == v,
            None => forall|m: int| k <= m < layouts.len() ==> (#[trigger] layouts[m]).version != v,
        },
    decreases layouts.len() - k,
{
    if k < layouts.len() && layouts[k].version != v {
        lemma_layout_index_facts(layouts, v, k + 1);
    }
}

/// Each record kind of a `.ted` file writes back what it was read from: no
/// two runs of a record carry one field, no run is wider than the model's
/// hold of its field, and every text field of the read records holds its
/// terminator; and the file is consistent in its ids: the coach block starts
/// with the team's id, and each player's id is its roster slot's.
pub open spec fn ted_round_trips(plain: Seq<u8>, o: TedOffsets, s: VersionSchema, t: TeamEntry, players: Seq<PlayerEntry>) -> bool {
    let slots = ted_slots(t.roster@, o.width as int);
    &&& team_runs_round_trip(schema_runs(s.team))
    &&& team_texts_round_trip(plain.subrange(o.team as int, o.team + s.team.size), s.team.texts@)
    &&& roster_runs_round_trip(schema_runs(s.roster))
    &&& tactics_runs_round_trip(tactics_runs_spec(s.tactic))
    &&& player_runs_round_trip(schema_runs(s.player))
    &&& forall|j: int|
        0 <= j < players.len() ==> player_texts_round_trip(
            ted_player_record(plain, o, s, #[trigger] slots[j]),
            s.player.texts@,
        )
    &&& plain.subrange(o.coach as int, o.coach + 4) == le_u32(t.id)
    &&& forall|j: int| 0 <= j < players.len() ==> (#[trigger] players[j]).id == t.roster@[slots[j]].player_id
}

/// Writing the players back into their own records leaves the plaintext as
/// it was.
proof fn lemma_slots_written_same(
    plain: Seq<u8>,
    o: TedOffsets,
    s: VersionSchema,
    slots: Seq<int>,
    players: Seq<PlayerEntry>,
    n: nat,
)
    requires
        ted_fits(plain, o, s),
        n <= players.len(),
        n <= slots.len(),
        forall|j: int| 0 <= j < n ==> 0 <= #[trigger] slots[j] < o.width,
        forall|j: int|
            0 <= j < n ==> player_written(
                #[trigger] players[j],
                ted_player_record(plain, o, s, slots[j]),
                s.player,
            ) == ted_player_record(plain, o, s, slots[j]),
    ensures
        slots_written(plain, o, s, slots, players, n) == plain,
    decreases n,
{
    if n > 0 {
        lemma_slots_written_same(plain, o, s, slots, players, (n - 1) as nat);
        let k = slots[n - 1];
        let psize = s.player.size as int;
        assert(players[n - 1] == players[n - 1]);
        assert((k + 1) * psize <= o.width * psize) by (nonlinear_arith)
            requires
                k + 1 <= o.width,
                psize >= 0,
        ;
        assert(k * psize + psize == (k + 1) * psize) by (nonlinear_arith);
        assert(0 <= k * psize) by (nonlinear_arith)
            requires
                k >= 0,
                psize >= 0,
        ;
        lemma_patch_own_bytes(plain, o.players + k * psize, psize);
    }
}

/// An 18-21 texport opened from `bytes` and written back unedited gives
/// `bytes` again, where its records round-trip: the team and the players can
/// be written, every record writes back what it was read from, and the
/// cipher undoes itself.
pub proof fn law_unedited_ted_rewrites_byte_for_byte(
    bytes: Seq<u8>,
    version: PesVersion,
    layout: TexportLayout,
    schema: VersionSchema,
    t: TexportView,
)
    requires
        ted_opened(bytes, version, layout, schema, t),
        texport_fits(t),
        ted_round_trips(
            ted_crypt(bytes, layout.key_index as int),
            ted_offsets(layout.size as int, schema),
            schema,
            t.4,
            t.5,
        ),
    ensures
        ted_team_writable(t.4, schema),
        ted_players_fit(t.4.roster@, ted_offsets(layout.size as int, schema).width as int, schema, t.5),
        ted_crypt(
            ted_written(ted_crypt(bytes, layout.key_index as int), ted_offsets(layout.size as int, schema), schema, t.4, t.5),
            layout.key_index as int,
        ) == bytes,
{
    let plain = ted_crypt(bytes, layout.key_index as int);
    let o = ted_offsets(layout.size as int, schema);
    let s = schema;
    let team = t.4;
    let players = t.5;
    lemma_layout_fits(layout, s, plain);
    let trec = plain.subrange(o.team as int, o.team + s.team.size);
    let rrec = plain.subrange(o.roster as int, o.roster + s.roster.size);
    let xrec = plain.subrange(o.tactics as int, o.tactics + s.tactic.size);
    let (t1, t2) = choose|t1: TeamEntry, t2: TeamEntry|
        #![trigger team_read_from(t1, plain.subrange(o.team as int, o.team + s.team.size), s.team), roster_applied(t1, t2, plain.subrange(o.roster as int, o.roster + s.roster.size), s.roster)]
        {
            &&& team_read_from(t1, plain.subrange(o.team as int, o.team + s.team.size), s.team)
            &&& roster_applied(t1, t2, plain.subrange(o.roster as int, o.roster + s.roster.size), s.roster)
            &&& tactics_applied(t2, team, plain.subrange(o.tactics as int, o.tactics + s.tactic.size), s.tactic)
        };
    lemma_team_triple_unchanged(s, trec, rrec, xrec, t1, t2, team);
    // The team's three records and the coach id write back what they hold.
    lemma_patch_own_bytes(plain, o.team as int, s.team.size as int);
    lemma_patch_own_bytes(plain, o.coach as int, 4);
    lemma_patch_own_bytes(plain, o.roster as int, s.roster.size as int);
    lemma_patch_own_bytes(plain, o.tactics as int, s.tactic.size as int);
    assert(ted_team_written(plain, o, s, team) == plain);
    // Each filled slot's player writes back its record.
    let slots = ted_slots(team.roster@, o.width as int);
    let n = if o.width < team.roster@.len() { o.width as nat } else { team.roster@.len() };
    lemma_filled_slots(team.roster@, n, n);
    assert forall|j: int| 0 <= j < players.len() implies {
        &&& player_runs_writable(#[trigger] players[j], schema_runs(s.player))
        &&& player_texts_writable(players[j], s.player.texts@) && player_face_fits(players[j], s.player)
        &&& player_written(players[j], ted_player_record(plain, o, s, slots[j]), s.player) == ted_player_record(
            plain,
            o,
            s,
            slots[j],
        )
    } by {
        let k = slots[j];
        let rec = ted_player_record(plain, o, s, k);
        assert(ted_player_ok(plain, o, s, team.roster@, k, players[j]));
        let d = choose|d: PlayerEntry| d.is_default() && player_read_post(d, players[j], rec, s.player);
        let psize = s.player.size as int;
        assert((k + 1) * psize <= o.width * psize) by (nonlinear_arith)
            requires
                k + 1 <= o.width,
                psize >= 0,
        ;
        assert(0 <= k * psize) by (nonlinear_arith)
            requires
                k >= 0,
                psize >= 0,
        ;
        assert(k * psize + psize == (k + 1) * psize) by (nonlinear_arith);
        assert(rec.len() == psize);
        law_write_after_read_keeps_the_record(d, players[j], rec, s.player);
    }
    lemma_slots_written_same(plain, o, s, slots, players, players.len());
    law_crypt_undoes_itself(bytes, layout.key_index as int);
}

/// Each record kind of a 15-17 texport writes back what it was read from:
/// no two runs of a record carry one field, no run is wider than the model's
/// hold of its field, every text field of the read records holds its
/// terminator, and a player record and its appearance record share no field,
/// no text and no ingame-face run.
pub open spec fn old_round_trips(payload: Seq<u8>, o: OldTexport, s: VersionSchema, n: int) -> bool {
    &&& tactics_runs_round_trip(tactics_runs_spec(s.tactic))
    &&& player_runs_round_trip(schema_runs(s.player))
    &&& forall|i: int|
        0 <= i < n ==> player_texts_round_trip(
            payload.subrange(#[trigger] old_record_at(o, s, i), old_record_at(o, s, i) + s.player.size),
            s.player.texts@,
        )
    &&& match s.appearance {
        Some((_, a)) => {
            &&& player_runs_round_trip(schema_runs(a))
            &&& forall|i: int|
                0 <= i < n ==> player_texts_round_trip(
                    payload.subrange(
                        #[trigger] old_record_at(o, s, i) + s.player.size,
                        old_record_at(o, s, i) + s.player.size + a.size,
                    ),
                    a.texts@,
                )
            &&& forall|j: int, k: int|
                0 <= j < schema_runs(a).len() && 0 <= k < schema_runs(s.player).len() ==> (
                #[trigger] schema_runs(a)[j]).0 != (#[trigger] schema_runs(s.player)[k]).0
            &&& forall|j: int, k: int|
                0 <= j < a.texts@.len() && 0 <= k < s.player.texts@.len() ==> (
                #[trigger] a.texts@[j]).text != (#[trigger] s.player.texts@[k]).text
            &&& (s.player.ingame_face is None || a.ingame_face is None)
        },
        None => true,
    }
}

/// Player `p` written into record `i`'s player and appearance records
/// gives them back unchanged, and the records lie inside the payload.
pub open spec fn old_player_written_back(payload: Seq<u8>, o: OldTexport, s: VersionSchema, i: int, p: PlayerEntry) -> bool {
    let at = old_record_at(o, s, i);
    let rec = payload.subrange(at, at + s.player.size);
    &&& 0 <= at
    &&& at + old_stride(s) <= payload.len()
    &&& player_written(p, rec, s.player) == rec
    &&& match s.appearance {
        Some((_, a)) => {
            let arec = payload.subrange(at + s.player.size, at + s.player.size + a.size);
            player_written(p, arec, a) == arec
        },
        None => true,
    }
}

/// Player `p` can be written into its player record and, where the version
/// keeps one, its appearance record.
pub open spec fn old_player_writable(s: VersionSchema, p: PlayerEntry) -> bool {
    &&& player_runs_writable(p, schema_runs(s.player))
    &&& player_texts_writable(p, s.player.texts@) && player_face_fits(p, s.player)
    &&& match s.appearance {
        Some((_, a)) => player_runs_writable(p, schema_runs(a)) && player_texts_writable(p, a.texts@) && player_face_fits(p, a),
        None => true,
    }
}

/// Player `i` of a 15-17 texport writes back its records.
proof fn lemma_old_player_unchanged(payload: Seq<u8>, o: OldTexport, s: VersionSchema, i: int, p: PlayerEntry, n: int)
    requires
        version_schema_wf(s),
        s.player.size >= 4,
        0 <= i < n,
        old_player_ok(payload, o, s, i, p),
        old_round_trips(payload, o, s, n),
    ensures
        old_player_written_back(payload, o, s, i, p),
        old_player_writable(s, p),
{
    reveal(old_player_ok);
    let at = old_record_at(o, s, i);
    let rec = payload.subrange(at, at + s.player.size);
    lemma_old_record_step(o, s, i);
    lemma_old_record_step(o, s, 0);
    let p0 = choose|p0: PlayerEntry|
        {
            &&& #[trigger] player_read_from(p0, payload.subrange(at, at + s.player.size), s.player)
            &&& match s.appearance {
                None => p == p0,
                Some((_, a)) => {
                    let arec = payload.subrange(at + s.player.size, at + s.player.size + a.size);
                    &&& player_runs_in_range(schema_runs(a))
                    &&& player_texts_decode(arec, a.texts@)
                    &&& player_read_post(p0, p, arec, a)
                },
            }
        };
    assert(player_texts_round_trip(rec, s.player.texts@));
    match s.appearance {
        None => {
            let d = choose|d: PlayerEntry| d.is_default() && player_read_post(d, p0, rec, s.player);
            law_write_after_read_keeps_the_record(d, p0, rec, s.player);
        },
        Some((_, a)) => {
            let arec = payload.subrange(at + s.player.size, at + s.player.size + a.size);
            assert(player_texts_round_trip(arec, a.texts@));
            lemma_player_pair_unchanged(s, a, rec, arec, p0, p);
        },
    }
}

/// Writing the players back into their own records leaves the payload as it
/// was.
proof fn lemma_old_players_written_same(payload: Seq<u8>, o: OldTexport, s: VersionSchema, players: Seq<PlayerEntry>, n: nat)
    requires
        n <= players.len(),
        forall|i: int| 0 <= i < n ==> old_player_written_back(payload, o, s, i, #[trigger] players[i]),
    ensures
        old_players_written(payload, o, s, players, n) == payload,
    decreases n,
{
    if n > 0 {
        lemma_old_players_written_same(payload, o, s, players, (n - 1) as nat);
        let i = n - 1;
        let at = old_record_at(o, s, i);
        assert(players[i] == players[n - 1]);
        lemma_patch_own_bytes(payload, at, s.player.size as int);
        match s.appearance {
            Some((_, a)) => {
                lemma_patch_own_bytes(payload, at + s.player.size, a.size as int);
            },
            None => {},
        }
    }
}

/// A 15-17 texport opened from container `c` and written back unedited
/// gives the same payload, and so, under the salt `c` was written with, the
/// same bytes, where its records round-trip: the tactics record and every
/// player can be written and write back what they were read from.
pub proof fn law_unedited_old_texport_rewrites_byte_for_byte(
    c: ContainerView,
    tables: TexportTables,
    t: TexportView,
    salt: Seq<u8>,
    bytes: Seq<u8>,
)
    requires
        old_opened(c, tables, t),
        texport_fits(t),
        old_round_trips(c.3, t.3->Some_0.1, t.1, t.5.len() as int),
        to_bytes_spec(c, salt) == Ok::<Seq<u8>, ContainerError>(bytes),
    ensures
        runs_writable(|g: TacticsField| tactics_value(t.4, g), tactics_runs_spec(t.1.tactic)),
        old_players_writable(t.1, t.5),
        old_written(c.3, t.3->Some_0.1, t.1, t.4, t.5) == c.3,
        to_bytes_spec(with_payload(c, old_written(c.3, t.3->Some_0.1, t.1, t.4, t.5)), salt) == Ok::<
            Seq<u8>,
            ContainerError,
        >(bytes),
{
    let payload = c.3;
    let o = t.3->Some_0.1;
    let s = t.1;
    let x = payload.subrange(o.tactics_at as int, o.tactics_at + s.tactic.size);
    reveal(old_team_read);
    let d = choose|d: TeamEntry| d.is_default() && tactics_applied(TeamEntry { id: record_id_spec(x), ..d }, t.4, x, s.tactic);
    law_tactics_write_after_read_keeps_the_record(TeamEntry { id: record_id_spec(x), ..d }, t.4, x, s.tactic);
    lemma_patch_own_bytes(payload, o.tactics_at as int, s.tactic.size as int);
    let n = t.5.len() as int;
    assert forall|i: int| 0 <= i < n implies old_player_written_back(payload, o, s, i, #[trigger] t.5[i])
        && old_player_writable(s, t.5[i]) by {
        assert(old_player_ok(payload, o, s, i, t.5[i]));
        lemma_old_player_unchanged(payload, o, s, i, t.5[i], n);
    }
    lemma_old_players_written_same(payload, o, s, t.5, t.5.len());
    assert(with_payload(c, payload) == c);
}

} // verus!
