//! `EditFile`: the whole save, open in memory. The one module that composes
//! `container` (bytes <-> decrypted sections) and `codec` (sections <-> fields):
//! it keeps the retained container and every unmodeled payload byte, so a
//! `to_bytes` patches only the modeled records and re-encrypts.
use vstd::prelude::*;
use vstd::slice::{slice_subrange, slice_to_vec};

use crate::codec::player::{
    law_write_after_read_keeps_the_record, player_read_post, player_run_writes,
    player_runs_in_range, player_runs_round_trip, player_runs_writable, player_text_bytes,
    player_text_writes, player_face_fits, player_texts_decode, player_texts_round_trip, player_texts_writable,
    player_written,
};
use crate::codec::team::{
    law_roster_write_after_read_keeps_the_record, law_tactics_write_after_read_keeps_the_record,
    law_team_write_after_read_keeps_the_record, read_tactics_into, roster_after,
    roster_runs_round_trip, tactics_runs_accepted, tactics_runs_round_trip, tactics_runs_spec,
    tactics_schema_wf, tactics_value_after, team_read_post, team_runs_in_range,
    team_runs_round_trip, team_text_bytes, team_texts_decode, team_texts_round_trip, team_written,
};
use crate::codec::{
    last_run_index, last_text_index, lemma_last_run_index_facts, lemma_last_text_index_facts,
    read_player, read_player_into, read_roster_into, read_team, record_schema_wf, run_writes,
    runs_writable, texts_writable, write_player, write_roster, write_runs_spec,
    write_tactics, write_team, CodecError,
};
use crate::model::player::player_field_value;
use crate::schema::schema_runs;
use crate::container::{decrypt_spec, to_bytes_spec, ContainerError, ContainerView, MasterKey, SaveContainer};
use crate::model::player::PlayerEntry;
use crate::model::team::TeamEntry;
use crate::schema::{SectionLayout, VersionSchema};
use crate::version::PesVersion;

verus! {

/// What is wrong with a section's layout.
#[derive(Debug, Clone, Copy, PartialEq, Eq)]
pub enum LayoutDetail {
    /// The count field at `count_offset` is past the `len`-byte payload.
    CountPastPayload {
        /// Where the count field sits.
        count_offset: usize,
        /// The payload's byte count.
        len: usize,
    },
    /// `count` records of `size` bytes overflow the address space.
    Overflow {
        /// The record count.
        count: usize,
        /// The record size.
        size: usize,
    },
    /// `count` records of `size` bytes end at `end`, the payload has `len`.
    PastPayload {
        /// The record count.
        count: usize,
        /// The record size.
        size: usize,
        /// Where the records would end.
        end: usize,
        /// The payload's byte count.
        len: usize,
    },
    /// The section has `records` records, the team section `teams`.
    CountMismatch {
        /// The section's record count.
        records: usize,
        /// The team section's record count.
        teams: usize,
    },
    /// Record `index` is team `id`, the team section's record `index` is `expected`.
    OrderMismatch {
        /// The record's position.
        index: usize,
        /// The id the record carries.
        id: u32,
        /// The id of the team section's record at that position.
        expected: u32,
    },
}

/// Why a buffer is not a loadable save, or the save cannot be written.
#[derive(Debug, Clone, PartialEq, Eq)]
pub enum SaveError {
    /// The container crypto failed.
    Container(ContainerError),
    /// A record codec failed.
    Codec(CodecError),
    /// A section's count or records run past the payload.
    Layout {
        /// The malformed section.
        section: &'static str,
        /// What is wrong with it.
        detail: LayoutDetail,
    },
    /// A record names an id the owning section lacks.
    RecordId {
        /// The section the stray record sits in.
        section: &'static str,
        /// The unmatched id.
        id: u32,
    },
}

/// The little-endian `u16` at `at`.
pub open spec fn le_u16_value(s: Seq<u8>, at: int) -> nat {
    (s[at] + 256 * s[at + 1]) as nat
}

/// The record count of a section, or what is wrong with its layout: the count
/// field must lie inside the payload, and `count` records of `size` bytes
/// from `offset` must end inside it (a product past `usize` saturates).
pub open spec fn section_count_spec(payload: Seq<u8>, section: SectionLayout, size: usize) -> Result<
    nat,
    LayoutDetail,
> {
    if section.count_offset + 2 > payload.len() {
        Err(LayoutDetail::CountPastPayload { count_offset: section.count_offset, len: payload.len() as usize })
    } else {
        let count = le_u16_value(payload, section.count_offset as int);
        let product = if count * size <= usize::MAX {
            count * size
        } else {
            usize::MAX as int
        };
        if section.offset + product > usize::MAX {
            Err(LayoutDetail::Overflow { count: count as usize, size })
        } else if section.offset + product > payload.len() || count * size > usize::MAX {
            Err(
                LayoutDetail::PastPayload {
                    count: count as usize,
                    size,
                    end: (section.offset + product) as usize,
                    len: payload.len() as usize,
                },
            )
        } else {
            Ok(count)
        }
    }
}

/// Record `i` of a section whose records are `size` bytes from `offset`.
pub open spec fn record_at(payload: Seq<u8>, offset: int, size: int, i: int) -> Seq<u8> {
    payload.subrange(offset + i * size, offset + (i + 1) * size)
}

/// The little-endian `u32` id at a record's start.
pub open spec fn record_id_spec(record: Seq<u8>) -> u32 {
    (record[0] + 256 * record[1] + 65536 * record[2] + 16777216 * record[3]) as u32
}

proof fn lemma_record_in_section(offset: int, size: int, count: int, i: int)
    requires
        0 <= offset,
        0 <= size,
        0 <= i < count,
    ensures
        offset + (i + 1) * size <= offset + count * size,
        0 <= i * size,
        offset <= offset + i * size,
        offset + i * size + size == offset + (i + 1) * size,
{
    assert((i + 1) * size <= count * size) by (nonlinear_arith)
        requires
            0 <= size,
            i + 1 <= count,
    ;
    assert(0 <= i * size) by (nonlinear_arith)
        requires
            0 <= size,
            0 <= i,
    ;
    assert(i * size + size == (i + 1) * size) by (nonlinear_arith);
}

/// The record count of a section, bounds-checked against the payload.
fn section_count(payload: &[u8], section: &SectionLayout, size: usize, name: &'static str) -> (r: Result<
    usize,
    SaveError,
>)
    requires
        payload@.len() <= usize::MAX,
    ensures
        match section_count_spec(payload@, *section, size) {
            Ok(n) => r == Ok::<usize, SaveError>(n as usize) && section.offset + n * size <= payload@.len(),
            Err(d) => r == Err::<usize, SaveError>(SaveError::Layout { section: name, detail: d }),
        },
{
    let len = payload.len();
    if len < 2 || section.count_offset > len - 2 {
        return Err(
            SaveError::Layout {
                section: name,
                detail: LayoutDetail::CountPastPayload { count_offset: section.count_offset, len },
            },
        );
    }
    let count = (payload[section.count_offset] as usize) + 256 * (payload[section.count_offset + 1] as usize);
    let (product, saturated) = match count.checked_mul(size) {
        Some(p) => (p, false),
        None => (usize::MAX, true),
    };
    let end = match section.offset.checked_add(product) {
        Some(e) => e,
        None => {
            return Err(SaveError::Layout { section: name, detail: LayoutDetail::Overflow { count, size } });
        },
    };
    if end > len || saturated {
        return Err(
            SaveError::Layout {
                section: name,
                detail: LayoutDetail::PastPayload { count, size, end, len },
            },
        );
    }
    Ok(count)
}

/// A section whose count checks out holds its records inside the payload.
proof fn lemma_section_fits(payload: Seq<u8>, section: SectionLayout, size: usize)
    requires
        section_count_spec(payload, section, size) is Ok,
    ensures
        section.offset + section_count_spec(payload, section, size)->Ok_0 * size <= payload.len(),
{
}

/// The little-endian u32 id at a record's start.
pub(crate) fn record_id(record: &[u8]) -> (id: u32)
    requires
        record@.len() >= 4,
    ensures
        id == record_id_spec(record@),
{
    (record[0] as u32) + 256 * (record[1] as u32) + 65536 * (record[2] as u32) + 16777216 * (record[3] as u32)
}

/// Whether some team has `id`.
fn has_team(teams: &Vec<TeamEntry>, id: u32) -> (b: bool)
    ensures
        b <==> exists|i: int| 0 <= i < teams@.len() && (#[trigger] teams@[i]).id == id,
{
    let mut i: usize = 0;
    while i < teams.len()
        invariant
            i <= teams@.len(),
            forall|j: int| 0 <= j < i ==> (#[trigger] teams@[j]).id != id,
        decreases teams@.len() - i,
    {
        if teams[i].id == id {
            return true;
        }
        i = i + 1;
    }
    false
}

/// The records of a roster or tactics section: one per team, carrying the team
/// section's ids in the same order.
pub open spec fn side_section_ok(
    payload: Seq<u8>,
    section: SectionLayout,
    size: usize,
    teams: Seq<TeamEntry>,
) -> bool {
    &&& section_count_spec(payload, section, size) == Ok::<nat, LayoutDetail>(teams.len())
    &&& forall|i: int|
        0 <= i < teams.len() ==> record_id_spec(
            record_at(payload, section.offset as int, size as int, i),
        ) == (#[trigger] teams[i]).id
}

/// A roster or tactics section's record count, checked against the team
/// section: same count, and the same ids in the same order (`Layout` on a count
/// or order break, `RecordId` on an id the team section lacks).
fn side_section(
    payload: &[u8],
    section: &SectionLayout,
    size: usize,
    name: &'static str,
    teams: &Vec<TeamEntry>,
) -> (r: Result<usize, SaveError>)
    requires
        size >= 4,
        payload@.len() <= usize::MAX,
    ensures
        r is Ok <==> side_section_ok(payload@, *section, size, teams@),
        r matches Ok(n) ==> n == teams@.len() && section.offset + n * size <= payload@.len(),
        r matches Err(e) ==> (e is Layout || e is RecordId),
{
    let count = match section_count(payload, section, size, name) {
        Ok(n) => n,
        Err(e) => {
            return Err(e);
        },
    };
    if count != teams.len() {
        return Err(
            SaveError::Layout {
                section: name,
                detail: LayoutDetail::CountMismatch { records: count, teams: teams.len() },
            },
        );
    }
    let mut i: usize = 0;
    while i < count
        invariant
            i <= count,
            count == teams@.len(),
            size >= 4,
            payload@.len() <= usize::MAX,
            section.offset + count * size <= payload@.len(),
            forall|j: int|
                0 <= j < i ==> record_id_spec(
                    record_at(payload@, section.offset as int, size as int, j),
                ) == (#[trigger] teams@[j]).id,
        decreases count - i,
    {
        proof {
            lemma_record_in_section(section.offset as int, size as int, count as int, i as int);
        }
        let rec = slice_subrange(payload, section.offset + i * size, section.offset + (i + 1) * size);
        let id = record_id(rec);
        if id != teams[i].id {
            if has_team(teams, id) {
                return Err(
                    SaveError::Layout {
                        section: name,
                        detail: LayoutDetail::OrderMismatch { index: i, id, expected: teams[i].id },
                    },
                );
            }
            return Err(SaveError::RecordId { section: name, id });
        }
        i = i + 1;
    }
    Ok(count)
}


/// An open save: the retained container plus the decoded players and teams.
pub struct EditFile {
    container: SaveContainer,
    schema: &'static VersionSchema,
    players: Vec<PlayerEntry>,
    /// The appearance record index of each player (PES 15/16 only).
    appearance_records: Vec<usize>,
    teams: Vec<TeamEntry>,
}

/// A version layout the codec can walk: every record layout is well formed,
/// and the records whose id is looked up hold one.
pub open spec fn version_schema_wf(s: VersionSchema) -> bool {
    &&& record_schema_wf(s.player)
    &&& match s.appearance {
        Some((_, a)) => record_schema_wf(a) && a.size >= 4,
        None => true,
    }
    &&& record_schema_wf(s.team)
    &&& record_schema_wf(s.roster)
    &&& s.roster.size >= 4
    &&& tactics_schema_wf(s.tactic)
    &&& s.tactic.size >= 4
}

/// Whether a version's layouts are ones the codec can walk.
pub fn version_schema_check(s: &VersionSchema) -> (b: bool)
    ensures
        b == version_schema_wf(*s),
{
    if !crate::codec::record_schema_check(&s.player) {
        return false;
    }
    match &s.appearance {
        Some((_, a)) => {
            if !crate::codec::record_schema_check(a) || a.size < 4 {
                return false;
            }
        },
        None => {},
    }
    crate::codec::record_schema_check(&s.team) && crate::codec::record_schema_check(&s.roster) && s.roster.size >= 4
        && crate::codec::team::tactics_schema_check(&s.tactic) && s.tactic.size >= 4
}

/// Whether some layout of `schemas` is for `v`.
fn has_schema_check(schemas: &[VersionSchema], v: PesVersion) -> (b: bool)
    ensures
        b == has_schema(schemas@, v),
{
    let mut k: usize = 0;
    while k < schemas.len()
        invariant
            k <= schemas@.len(),
            forall|j: int| 0 <= j < k ==> (#[trigger] schemas@[j]).version != v,
        decreases schemas@.len() - k,
    {
        if schemas[k].version == v {
            return true;
        }
        k = k + 1;
    }
    false
}

/// Whether `schemas` is a layout table the library can read saves with: it
/// holds a layout for every version, and every layout is well formed.
pub fn schemas_cover_every_version(schemas: &[VersionSchema]) -> (b: bool)
    ensures
        b == schemas_cover(schemas@),
{
    let mut k: usize = 0;
    while k < schemas.len()
        invariant
            k <= schemas@.len(),
            forall|j: int| 0 <= j < k ==> version_schema_wf(#[trigger] schemas@[j]),
        decreases schemas@.len() - k,
    {
        if !version_schema_check(&schemas[k]) {
            return false;
        }
        k = k + 1;
    }
    let all = has_schema_check(schemas, PesVersion::Pes15) && has_schema_check(schemas, PesVersion::Pes16)
        && has_schema_check(schemas, PesVersion::Pes17) && has_schema_check(schemas, PesVersion::Pes18)
        && has_schema_check(schemas, PesVersion::Pes19) && has_schema_check(schemas, PesVersion::Pes20)
        && has_schema_check(schemas, PesVersion::Pes21);
    proof {
        if all {
            assert forall|v: PesVersion| #[trigger] has_schema(schemas@, v) by {
                match v {
                    PesVersion::Pes15 => {},
                    PesVersion::Pes16 => {},
                    PesVersion::Pes17 => {},
                    PesVersion::Pes18 => {},
                    PesVersion::Pes19 => {},
                    PesVersion::Pes20 => {},
                    PesVersion::Pes21 => {},
                }
            }
        }
    }
    all
}

/// `schemas` holds a layout for `v`.
pub open spec fn has_schema(schemas: Seq<VersionSchema>, v: PesVersion) -> bool {
    exists|i: int| 0 <= i < schemas.len() && (#[trigger] schemas[i]).version == v
}

/// Every version has a layout in `schemas`, and every layout is well formed.
pub open spec fn schemas_cover(schemas: Seq<VersionSchema>) -> bool {
    &&& forall|v: PesVersion| #[trigger] has_schema(schemas, v)
    &&& forall|i: int| 0 <= i < schemas.len() ==> version_schema_wf(#[trigger] schemas[i])
}

/// The index of the first layout for `v`.
pub open spec fn schema_index(schemas: Seq<VersionSchema>, v: PesVersion) -> int
    recommends
        exists|i: int| 0 <= i < schemas.len() && schemas[i].version == v,
{
    choose|i: int| 0 <= i < schemas.len() && schemas[i].version == v && forall|j: int|
        0 <= j < i ==> (#[trigger] schemas[j]).version != v
}

/// The version a container view belongs to.
pub open spec fn view_version(c: ContainerView) -> PesVersion {
    match c.0 {
        crate::container::Scheme::Pes15 => PesVersion::Pes15,
        crate::container::Scheme::Keyed(key) => key.version,
    }
}

/// The layout for `v`: the first one in `schemas`.
fn find_schema(schemas: &[VersionSchema], v: PesVersion) -> (i: usize)
    requires
        has_schema(schemas@, v),
    ensures
        i < schemas@.len(),
        schemas@[i as int].version == v,
        forall|j: int| 0 <= j < i ==> (#[trigger] schemas@[j]).version != v,
{
    let mut i: usize = 0;
    while i < schemas.len()
        invariant
            i <= schemas@.len(),
            has_schema(schemas@, v),
            forall|j: int| 0 <= j < i ==> (#[trigger] schemas@[j]).version != v,
        decreases schemas@.len() - i,
    {
        if schemas[i].version == v {
            return i;
        }
        i = i + 1;
    }
    proof {
        let w = choose|w: int| 0 <= w < schemas@.len() && schemas@[w].version == v;
        assert(schemas@[w].version != v);
    }
    0
}

/// The layout `schemas` holds for `v`: the first one for it.
pub(crate) fn schema_for(schemas: &'static [VersionSchema], v: PesVersion) -> (s: &'static VersionSchema)
    requires
        schemas_cover(schemas@),
    ensures
        *s == schemas@[schema_index(schemas@, v)],
        version_schema_wf(*s),
{
    proof {
        assert(has_schema(schemas@, v));
    }
    let si = find_schema(schemas, v);
    proof {
        assert(version_schema_wf(schemas@[si as int]));
        let w = schema_index(schemas@, v);
        assert(0 <= w < schemas@.len() && schemas@[w].version == v && forall|j: int|
            0 <= j < w ==> (#[trigger] schemas@[j]).version != v);
        if w < si {
            assert(schemas@[w].version != v);
        } else if w > si {
            assert(schemas@[si as int].version != v);
        }
    }
    &schemas[si]
}

/// The first record of a section whose id is `id`.
fn find_record(payload: &[u8], offset: usize, size: usize, count: usize, id: u32) -> (r: Option<usize>)
    requires
        size >= 4,
        offset + count * size <= payload@.len(),
        payload@.len() <= usize::MAX,
    ensures
        match r {
            Some(j) => j < count && record_id_spec(record_at(payload@, offset as int, size as int, j as int))
                == id && forall|k: int|
                0 <= k < j ==> record_id_spec(#[trigger] record_at(payload@, offset as int, size as int, k)) != id,
            None => forall|k: int|
                0 <= k < count ==> record_id_spec(#[trigger] record_at(payload@, offset as int, size as int, k)) != id,
        },
{
    let mut j: usize = 0;
    while j < count
        invariant
            j <= count,
            size >= 4,
            offset + count * size <= payload@.len(),
            payload@.len() <= usize::MAX,
            forall|k: int|
                0 <= k < j ==> record_id_spec(#[trigger] record_at(payload@, offset as int, size as int, k)) != id,
        decreases count - j,
    {
        proof {
            lemma_record_in_section(offset as int, size as int, count as int, j as int);
        }
        let rec = slice_subrange(payload, offset + j * size, offset + (j + 1) * size);
        if record_id(rec) == id {
            return Some(j);
        }
        j = j + 1;
    }
    None
}


/// What an open save holds: the container, the layout, the players, each
/// player's appearance record index, and the teams.
pub type FileView = (ContainerView, VersionSchema, Seq<PlayerEntry>, Seq<usize>, Seq<TeamEntry>);

impl View for EditFile {
    type V = FileView;

    closed spec fn view(&self) -> FileView {
        (self.container@, *self.schema, self.players@, self.appearance_records@, self.teams@)
    }
}

/// `p` is what a fresh player reads from `record`, and the read succeeds.
pub open spec fn player_read_from(
    p: PlayerEntry,
    record: Seq<u8>,
    schema: crate::schema::RecordSchema<crate::schema::PlayerField, crate::schema::PlayerText>,
) -> bool {
    &&& player_runs_in_range(crate::schema::schema_runs(schema))
    &&& player_texts_decode(record, schema.texts@)
    &&& exists|d: PlayerEntry| d.is_default() && player_read_post(d, p, record, schema)
}

/// Player `i` of the payload is `p`: its player record read onto a fresh
/// player, then, on versions with an appearance section, the first appearance
/// record carrying its id (record `app`) applied onto it.
pub open spec fn player_loaded(payload: Seq<u8>, s: VersionSchema, i: int, p: PlayerEntry, app: usize) -> bool {
    exists|p0: PlayerEntry|
        {
            &&& #[trigger] player_read_from(
                p0,
                record_at(payload, s.players.offset as int, s.player.size as int, i),
                s.player,
            )
            &&& match s.appearance {
                None => p == p0,
                Some((sec, a)) => {
                    let rec = record_at(payload, sec.offset as int, a.size as int, app as int);
                    &&& section_count_spec(payload, sec, a.size) matches Ok(m) && app < m
                    &&& record_id_spec(rec) == p0.id
                    &&& forall|k: int|
                        0 <= k < app ==> record_id_spec(
                            #[trigger] record_at(payload, sec.offset as int, a.size as int, k),
                        ) != p0.id
                    &&& player_runs_in_range(crate::schema::schema_runs(a))
                    &&& player_texts_decode(rec, a.texts@)
                    &&& player_read_post(p0, p, rec, a)
                },
            }
        }
}

/// `t` is what a fresh team reads from `record`, and the read succeeds.
pub open spec fn team_read_from(
    t: TeamEntry,
    record: Seq<u8>,
    schema: crate::schema::RecordSchema<crate::schema::TeamField, crate::schema::TeamText>,
) -> bool {
    &&& team_runs_in_range(crate::schema::schema_runs(schema))
    &&& team_texts_decode(record, schema.texts@)
    &&& exists|d: TeamEntry| d.is_default() && team_read_post(d, t, record, schema)
}

/// `after` is `before` with the roster record applied, which carries its id.
pub open spec fn roster_applied(
    before: TeamEntry,
    after: TeamEntry,
    record: Seq<u8>,
    schema: crate::schema::RecordSchema<crate::schema::RosterField, crate::schema::TeamText>,
) -> bool {
    let runs = crate::schema::schema_runs(schema);
    &&& crate::codec::team::team_id_runs_match(
        before.id,
        record,
        runs,
        crate::schema::RosterField::TeamId,
    )
    &&& after.roster@ == roster_after(before.roster@, record, runs)
    &&& after.id == before.id
    &&& after.name == before.name
    &&& after.short_name == before.short_name
    &&& after.manager_id == before.manager_id
    &&& after.stadium_id == before.stadium_id
    &&& after.colors == before.colors
    &&& after.edit_flags == before.edit_flags
    &&& after.kit_slots == before.kit_slots
    &&& after.tactics == before.tactics
}

/// `after` is `before` with the tactics record applied, which it accepts.
pub open spec fn tactics_applied(
    before: TeamEntry,
    after: TeamEntry,
    record: Seq<u8>,
    schema: crate::schema::TacticsSchema,
) -> bool {
    let runs = crate::codec::team::tactics_runs_spec(schema);
    &&& tactics_runs_accepted(before.id, record, runs)
    &&& forall|g: crate::schema::TacticsField| #[trigger]
        crate::model::tactics::tactics_value(after, g) == tactics_value_after(before, record, runs, g)
    &&& crate::model::tactics::same_outside_tactics_record(before, after)
}

/// Team `i` of the payload is `t`: its team record read onto a fresh team,
/// then its roster and tactics records, which carry the team's id, applied.
pub open spec fn team_loaded(payload: Seq<u8>, s: VersionSchema, i: int, t: TeamEntry) -> bool {
    exists|t1: TeamEntry, t2: TeamEntry|
        #![trigger team_read_from(t1, record_at(payload, s.teams.offset as int, s.team.size as int, i), s.team), roster_applied(t1, t2, record_at(payload, s.rosters.offset as int, s.roster.size as int, i), s.roster)]
        {
            let rrec = record_at(payload, s.rosters.offset as int, s.roster.size as int, i);
            let xrec = record_at(payload, s.tactics.offset as int, s.tactic.size as int, i);
            &&& team_read_from(t1, record_at(payload, s.teams.offset as int, s.team.size as int, i), s.team)
            &&& record_id_spec(rrec) == t1.id
            &&& roster_applied(t1, t2, rrec, s.roster)
            &&& record_id_spec(xrec) == t2.id
            &&& tactics_applied(t2, t, xrec, s.tactic)
        }
}

/// `f` is the save `bytes` open as: the container `keys` decrypt it to, the
/// first layout for its version, every player and every team loaded from
/// their records, the roster and tactics sections one record per team.
pub open spec fn file_loaded(
    f: FileView,
    bytes: Seq<u8>,
    keys: Seq<MasterKey>,
    schemas: Seq<VersionSchema>,
) -> bool {
    &&& decrypt_spec(bytes, keys) == Ok::<ContainerView, ContainerError>(f.0)
    &&& f.1 == schemas[schema_index(schemas, view_version(f.0))]
    &&& players_loaded(f.0.3, f.1, f.2, f.3)
    &&& teams_loaded(f.0.3, f.1, f.4)
}

/// The players of a payload and, on versions with an appearance section, each
/// player's appearance record index.
pub open spec fn players_loaded(payload: Seq<u8>, s: VersionSchema, players: Seq<PlayerEntry>, apps: Seq<usize>) -> bool {
    &&& section_count_spec(payload, s.players, s.player.size) == Ok::<nat, LayoutDetail>(players.len())
    &&& apps.len() == (if s.appearance is Some { players.len() } else { 0 })
    &&& forall|i: int|
        0 <= i < players.len() ==> player_loaded(payload, s, i, #[trigger] players[i], if s.appearance is Some {
            apps[i]
        } else {
            0
        })
}

/// The teams of a payload, joined from the team, roster and tactics sections.
pub open spec fn teams_loaded(payload: Seq<u8>, s: VersionSchema, teams: Seq<TeamEntry>) -> bool {
    &&& section_count_spec(payload, s.teams, s.team.size) == Ok::<nat, LayoutDetail>(teams.len())
    &&& section_count_spec(payload, s.rosters, s.roster.size) == Ok::<nat, LayoutDetail>(teams.len())
    &&& section_count_spec(payload, s.tactics, s.tactic.size) == Ok::<nat, LayoutDetail>(teams.len())
    &&& forall|i: int| 0 <= i < teams.len() ==> team_loaded(payload, s, i, #[trigger] teams[i])
}

/// The id a player record reads as: its `Id` run, or 0 where the schema has
/// none.
pub open spec fn record_player_id(
    record: Seq<u8>,
    schema: crate::schema::RecordSchema<crate::schema::PlayerField, crate::schema::PlayerText>,
) -> u32 {
    match crate::codec::player::field_after_runs(Some(0u32), record, schema_runs(schema), crate::schema::PlayerField::Id) {
        Some(v) => v,
        None => 0,
    }
}

/// A player read from a record carries the record's id.
proof fn lemma_read_player_id(
    p: PlayerEntry,
    record: Seq<u8>,
    schema: crate::schema::RecordSchema<crate::schema::PlayerField, crate::schema::PlayerText>,
)
    requires
        player_read_from(p, record, schema),
    ensures
        p.id == record_player_id(record, schema),
{
    let d = choose|d: PlayerEntry| d.is_default() && player_read_post(d, p, record, schema);
    assert(player_field_value(p, crate::schema::PlayerField::Id) == crate::codec::player::field_after_runs(
        player_field_value(d, crate::schema::PlayerField::Id),
        record,
        schema_runs(schema),
        crate::schema::PlayerField::Id,
    ));
}

/// Record `j` is the first of the `m` appearance records carrying `id`.
pub open spec fn first_record_with_id(payload: Seq<u8>, sec: SectionLayout, size: usize, m: nat, id: u32, j: int) -> bool {
    &&& 0 <= j < m
    &&& record_id_spec(record_at(payload, sec.offset as int, size as int, j)) == id
    &&& forall|k: int| 0 <= k < j ==> record_id_spec(#[trigger] record_at(payload, sec.offset as int, size as int, k)) != id
}

/// The first of the `m` appearance records carrying `id` exists and decodes.
pub open spec fn appearance_decodes(
    payload: Seq<u8>,
    sec: SectionLayout,
    a: crate::schema::RecordSchema<crate::schema::PlayerField, crate::schema::PlayerText>,
    m: nat,
    id: u32,
) -> bool {
    exists|j: int| #[trigger] first_record_with_id(payload, sec, a.size, m, id, j) && player_texts_decode(
        record_at(payload, sec.offset as int, a.size as int, j),
        a.texts@,
    )
}

/// A side section matches the teams exactly when it matches their ids.
proof fn lemma_side_section_ids(payload: Seq<u8>, section: SectionLayout, size: usize, teams: Seq<TeamEntry>, ids: Seq<u32>)
    requires
        teams.len() == ids.len(),
        forall|j: int| 0 <= j < ids.len() ==> #[trigger] teams[j].id == ids[j],
    ensures
        side_section_ok(payload, section, size, teams) <==> section_ids_ok(payload, section, size, ids),
{
    if side_section_ok(payload, section, size, teams) {
        assert forall|i: int| 0 <= i < ids.len() implies record_id_spec(
            #[trigger] record_at(payload, section.offset as int, size as int, i),
        ) == ids[i] by {
            assert(teams[i].id == ids[i]);
        }
    }
    if section_ids_ok(payload, section, size, ids) {
        assert forall|i: int| 0 <= i < teams.len() implies record_id_spec(
            record_at(payload, section.offset as int, size as int, i),
        ) == (#[trigger] teams[i]).id by {
            assert(teams[i].id == ids[i]);
        }
    }
}

/// A decrypted payload opens under layout `s`: every player and every team
/// can be read.
pub open spec fn payload_readable(payload: Seq<u8>, s: VersionSchema) -> bool {
    players_readable(payload, s) && teams_readable(payload, s)
}

/// Every player of the payload can be read: the section's count fits the
/// payload, each player record decodes, and on versions with an appearance
/// section, that section's count fits too and each player's id has an
/// appearance record whose first copy decodes.
pub open spec fn players_readable(payload: Seq<u8>, s: VersionSchema) -> bool {
    match section_count_spec(payload, s.players, s.player.size) {
        Err(_) => false,
        Ok(n) => {
            &&& n > 0 ==> player_runs_in_range(schema_runs(s.player))
            &&& forall|i: int| 0 <= i < n ==> player_texts_decode(
                #[trigger] record_at(payload, s.players.offset as int, s.player.size as int, i),
                s.player.texts@,
            )
            &&& match s.appearance {
                None => true,
                Some((sec, a)) => match section_count_spec(payload, sec, a.size) {
                    Err(_) => false,
                    Ok(m) => {
                        &&& n > 0 ==> player_runs_in_range(schema_runs(a))
                        &&& forall|i: int| 0 <= i < n ==> appearance_decodes(payload, sec, a, m, record_player_id(
                            #[trigger] record_at(payload, s.players.offset as int, s.player.size as int, i),
                            s.player,
                        ))
                    },
                },
            }
        },
    }
}

/// Every player of the payload, with its appearance record applied where the
/// version has a separate appearance section.
#[verifier::loop_isolation(false)]
fn read_players(payload: &[u8], schema: &VersionSchema) -> (r: Result<(Vec<PlayerEntry>, Vec<usize>), SaveError>)
    requires
        version_schema_wf(*schema),
        payload@.len() <= usize::MAX,
    ensures
        r is Ok <==> players_readable(payload@, *schema),
        r matches Err(e) ==> (e is Layout || e is Codec || e is RecordId),
        r matches Ok((players, apps)) ==> players_loaded(payload@, *schema, players@, apps@) && match schema.appearance {
            Some((sec, a)) => forall|i: int|
                0 <= i < apps@.len() ==> sec.offset + ((#[trigger] apps@[i]) + 1) * a.size <= payload@.len(),
            None => true,
        },
{
        let n = match section_count(payload, &schema.players, schema.player.size, "players") {
            Ok(n) => n,
            Err(e) => {
                return Err(e);
            },
        };
        let size = schema.player.size;
        let off = schema.players.offset;
        let mut players: Vec<PlayerEntry> = Vec::new();
        let mut i: usize = 0;
        while i < n
            invariant
                i <= n,
                off == schema.players.offset,
                size == schema.player.size,
                off + n * size <= payload@.len(),
                version_schema_wf(*schema),
                players@.len() == i,
                forall|j: int|
                    0 <= j < i ==> player_read_from(
                        #[trigger] players@[j],
                        record_at(payload@, off as int, size as int, j),
                        schema.player,
                    ),
            decreases n - i,
        {
            proof {
                lemma_record_in_section(off as int, size as int, n as int, i as int);
            }
            let rec = slice_subrange(payload, off + i * size, off + (i + 1) * size);
            match read_player(rec, &schema.player) {
                Ok(p) => {
                    players.push(p);
                },
                Err(e) => {
                    proof {
                        assert(rec@ == record_at(payload@, schema.players.offset as int, schema.player.size as int, i as int));
                    }
                    return Err(SaveError::Codec(e));
                },
            }
            i = i + 1;
        }
        let ghost firsts = players@;
        proof {
            assert forall|k: int| 0 <= k < n implies player_texts_decode(
                #[trigger] record_at(payload@, schema.players.offset as int, schema.player.size as int, k),
                schema.player.texts@,
            ) by {
                assert(player_read_from(firsts[k], record_at(payload@, off as int, size as int, k), schema.player));
            }
            if n > 0 {
                assert(player_read_from(firsts[0], record_at(payload@, off as int, size as int, 0), schema.player));
            }
        }
        let mut appearance_records: Vec<usize> = Vec::new();
        match &schema.appearance {
            Some((section, appearance)) => {
                let m = match section_count(payload, section, appearance.size, "appearance") {
                    Ok(m) => m,
                    Err(e) => {
                        return Err(e);
                    },
                };
                let mut i: usize = 0;
                while i < n
                    invariant
                        i <= n,
                        players@.len() == n,
                        appearance_records@.len() == i,
                        forall|j: int|
                            0 <= j < i ==> section.offset + ((#[trigger] appearance_records@[j]) + 1) * appearance.size
                                <= payload@.len(),
                        firsts.len() == n,
                        schema.appearance == Some((*section, *appearance)),
                        section_count_spec(payload@, *section, appearance.size) == Ok::<nat, LayoutDetail>(m as nat),
                        section.offset + m * appearance.size <= payload@.len(),
                                version_schema_wf(*schema),
                        forall|j: int| i <= j < n ==> #[trigger] players@[j] == firsts[j],
                        forall|k: int| 0 <= k < i ==> appearance_decodes(payload@, *section, *appearance, m as nat, record_player_id(
                            #[trigger] record_at(payload@, schema.players.offset as int, schema.player.size as int, k),
                            schema.player,
                        )),
                        i > 0 ==> player_runs_in_range(schema_runs(*appearance)),
                        forall|j: int|
                            0 <= j < i ==> player_loaded(payload@, *schema, j, #[trigger] players@[j], appearance_records@[j]),
                        forall|j: int|
                            0 <= j < n ==> #[trigger] player_read_from(
                                firsts[j],
                                record_at(payload@, off as int, size as int, j),
                                schema.player,
                            ),
                    decreases n - i,
                {
                    let id = players[i].id;
                    proof {
                        lemma_read_player_id(
                            firsts[i as int],
                            record_at(payload@, off as int, size as int, i as int),
                            schema.player,
                        );
                    }
                    let j = match find_record(payload, section.offset, appearance.size, m, id) {
                        Some(j) => j,
                        None => {
                            proof {
                                if appearance_decodes(payload@, *section, *appearance, m as nat, id) {
                                    let w = choose|w: int| #[trigger] first_record_with_id(payload@, *section, appearance.size, m as nat, id, w) && player_texts_decode(
                                        record_at(payload@, section.offset as int, appearance.size as int, w),
                                        appearance.texts@,
                                    );
                                    assert(record_id_spec(record_at(payload@, section.offset as int, appearance.size as int, w)) != id);
                                }
                                assert(record_at(payload@, off as int, size as int, i as int) == record_at(payload@, schema.players.offset as int, schema.player.size as int, i as int));
                            }
                            return Err(SaveError::RecordId { section: "appearance", id });
                        },
                    };
                    proof {
                        lemma_record_in_section(section.offset as int, appearance.size as int, m as int, j as int);
                    }
                    let rec = slice_subrange(
                        payload,
                        section.offset + j * appearance.size,
                        section.offset + (j + 1) * appearance.size,
                    );
                    let ghost p0 = players@[i as int];
                    match read_player_into(&mut players[i], rec, appearance) {
                        Ok(()) => {},
                        Err(e) => {
                            proof {
                                let recj = record_at(payload@, section.offset as int, appearance.size as int, j as int);
                                assert(rec@ == recj);
                                assert(first_record_with_id(payload@, *section, appearance.size, m as nat, id, j as int));
                                if appearance_decodes(payload@, *section, *appearance, m as nat, id) {
                                    let w = choose|w: int| #[trigger] first_record_with_id(payload@, *section, appearance.size, m as nat, id, w) && player_texts_decode(
                                        record_at(payload@, section.offset as int, appearance.size as int, w),
                                        appearance.texts@,
                                    );
                                    if w < j {
                                        assert(record_id_spec(record_at(payload@, section.offset as int, appearance.size as int, w)) != id);
                                    } else if w > j {
                                        assert(record_id_spec(recj) != id);
                                    }
                                }
                                assert(record_at(payload@, off as int, size as int, i as int) == record_at(payload@, schema.players.offset as int, schema.player.size as int, i as int));
                            }
                            return Err(SaveError::Codec(e));
                        },
                    }
                    appearance_records.push(j);
                    proof {
                        let recj = record_at(payload@, section.offset as int, appearance.size as int, j as int);
                        assert(rec@ == recj);
                        assert(first_record_with_id(payload@, *section, appearance.size, m as nat, id, j as int));
                        assert(appearance_decodes(payload@, *section, *appearance, m as nat, id));
                        assert(record_at(payload@, off as int, size as int, i as int) == record_at(payload@, schema.players.offset as int, schema.player.size as int, i as int));
                        assert(player_read_from(p0, record_at(payload@, off as int, size as int, i as int), schema.player));
                        assert(player_loaded(payload@, *schema, i as int, players@[i as int], j));
                    }
                    i = i + 1;
                }
            },
            None => {
                proof {
                    assert forall|j: int| 0 <= j < n implies player_loaded(payload@, *schema, j, #[trigger] players@[j], 0) by {
                        assert(player_read_from(players@[j], record_at(payload@, off as int, size as int, j), schema.player));
                    }
                }
            },
        }
        proof {
            if schema.appearance is Some {
                assert(appearance_records@.len() == n);
            }
            assert forall|j: int| 0 <= j < n implies player_loaded(payload@, *schema, j, #[trigger] players@[j], if schema.appearance is Some {
                appearance_records@[j]
            } else {
                0
            }) by {}
        }
        Ok((players, appearance_records))
}

/// The id a team record reads as: its `Id` run, or 0 where the schema has
/// none.
pub open spec fn record_team_id(
    record: Seq<u8>,
    schema: crate::schema::RecordSchema<crate::schema::TeamField, crate::schema::TeamText>,
) -> u32 {
    let runs = schema_runs(schema);
    match last_run_index(runs, crate::schema::TeamField::Id) {
        Some(k) => crate::model::player::stored(
            crate::model::team::team_field_kind(crate::schema::TeamField::Id),
            crate::codec::bits::run_value(record, runs[k].1 as int, runs[k].2),
        ),
        None => 0,
    }
}

/// A team read from a record carries the record's id.
proof fn lemma_read_team_id(
    t: TeamEntry,
    record: Seq<u8>,
    schema: crate::schema::RecordSchema<crate::schema::TeamField, crate::schema::TeamText>,
)
    requires
        team_read_from(t, record, schema),
    ensures
        t.id == record_team_id(record, schema),
{
    let d = choose|d: TeamEntry| d.is_default() && team_read_post(d, t, record, schema);
    assert(crate::model::team::team_field_value(t, crate::schema::TeamField::Id)
        == crate::codec::team::team_value_after(d, record, schema_runs(schema), crate::schema::TeamField::Id));
}

/// The ids of the first `n` team records.
pub open spec fn team_record_ids(payload: Seq<u8>, s: VersionSchema, n: nat) -> Seq<u32> {
    Seq::new(n, |i: int| record_team_id(record_at(payload, s.teams.offset as int, s.team.size as int, i), s.team))
}

/// A roster or tactics section holds one record per id of `ids`, carrying
/// that id, in that order.
pub open spec fn section_ids_ok(payload: Seq<u8>, section: SectionLayout, size: usize, ids: Seq<u32>) -> bool {
    &&& section_count_spec(payload, section, size) == Ok::<nat, LayoutDetail>(ids.len())
    &&& forall|i: int|
        0 <= i < ids.len() ==> record_id_spec(#[trigger] record_at(payload, section.offset as int, size as int, i))
            == ids[i]
}

/// Every team of the payload can be read: the team section's count fits the
/// payload and each team record decodes; the roster and tactics sections
/// hold one record per team, with the teams' ids in the teams' order; and
/// each roster and tactics record is accepted for its team.
pub open spec fn teams_readable(payload: Seq<u8>, s: VersionSchema) -> bool {
    match section_count_spec(payload, s.teams, s.team.size) {
        Err(_) => false,
        Ok(n) => {
            let ids = team_record_ids(payload, s, n);
            &&& n > 0 ==> team_runs_in_range(schema_runs(s.team))
            &&& forall|i: int| 0 <= i < n ==> team_texts_decode(
                #[trigger] record_at(payload, s.teams.offset as int, s.team.size as int, i),
                s.team.texts@,
            )
            &&& section_ids_ok(payload, s.rosters, s.roster.size, ids)
            &&& forall|i: int| 0 <= i < n ==> crate::codec::team::team_id_runs_match(
                ids[i],
                #[trigger] record_at(payload, s.rosters.offset as int, s.roster.size as int, i),
                schema_runs(s.roster),
                crate::schema::RosterField::TeamId,
            )
            &&& section_ids_ok(payload, s.tactics, s.tactic.size, ids)
            &&& forall|i: int| 0 <= i < n ==> tactics_runs_accepted(
                ids[i],
                #[trigger] record_at(payload, s.tactics.offset as int, s.tactic.size as int, i),
                tactics_runs_spec(s.tactic),
            )
        },
    }
}

/// Every team of the payload: the team records, with the roster and tactics
/// records (one per team, same ids in the same order) applied.
#[verifier::loop_isolation(false)]
fn read_teams(payload: &[u8], schema: &VersionSchema) -> (r: Result<Vec<TeamEntry>, SaveError>)
    requires
        version_schema_wf(*schema),
        payload@.len() <= usize::MAX,
    ensures
        r is Ok <==> teams_readable(payload@, *schema),
        r matches Err(e) ==> (e is Layout || e is Codec || e is RecordId),
        r matches Ok(teams) ==> teams_loaded(payload@, *schema, teams@),
{
        let tn = match section_count(payload, &schema.teams, schema.team.size, "teams") {
            Ok(n) => n,
            Err(e) => {
                return Err(e);
            },
        };
        let tsize = schema.team.size;
        let toff = schema.teams.offset;
        let mut teams: Vec<TeamEntry> = Vec::new();
        let mut i: usize = 0;
        while i < tn
            invariant
                i <= tn,
                toff + tn * tsize <= payload@.len(),
                teams@.len() == i,
                forall|j: int|
                    0 <= j < i ==> team_read_from(
                        #[trigger] teams@[j],
                        record_at(payload@, toff as int, tsize as int, j),
                        schema.team,
                    ),
            decreases tn - i,
        {
            proof {
                lemma_record_in_section(toff as int, tsize as int, tn as int, i as int);
            }
            let rec = slice_subrange(payload, toff + i * tsize, toff + (i + 1) * tsize);
            match read_team(rec, &schema.team) {
                Ok(t) => {
                    teams.push(t);
                },
                Err(e) => {
                    proof {
                        assert(rec@ == record_at(payload@, schema.teams.offset as int, schema.team.size as int, i as int));
                    }
                    return Err(SaveError::Codec(e));
                },
            }
            i = i + 1;
        }
        let ghost t1s = teams@;
        let ghost ids = team_record_ids(payload@, *schema, tn as nat);
        proof {
            assert forall|j: int| 0 <= j < tn implies #[trigger] t1s[j].id == ids[j] && team_texts_decode(
                record_at(payload@, schema.teams.offset as int, schema.team.size as int, j),
                schema.team.texts@,
            ) by {
                assert(team_read_from(t1s[j], record_at(payload@, toff as int, tsize as int, j), schema.team));
                lemma_read_team_id(t1s[j], record_at(payload@, toff as int, tsize as int, j), schema.team);
            }
            if tn > 0 {
                assert(team_read_from(t1s[0], record_at(payload@, toff as int, tsize as int, 0), schema.team));
            }
            lemma_side_section_ids(payload@, schema.rosters, schema.roster.size, t1s, ids);
        }
        // The three team sections must list the same ids in the same order.
        let rn = match side_section(payload, &schema.rosters, schema.roster.size, "rosters", &teams) {
            Ok(n) => n,
            Err(e) => {
                return Err(e);
            },
        };
        let rsize = schema.roster.size;
        let roff = schema.rosters.offset;
        let mut i: usize = 0;
        while i < rn
            invariant
                i <= rn,
                rn == tn,
                roff + rn * rsize <= payload@.len(),
                teams@.len() == tn,
                t1s.len() == tn,
                side_section_ok(payload@, schema.rosters, rsize, t1s),
                forall|j: int| i <= j < tn ==> #[trigger] teams@[j] == t1s[j],
                forall|j: int|
                    0 <= j < i ==> roster_applied(
                        t1s[j],
                        #[trigger] teams@[j],
                        record_at(payload@, roff as int, rsize as int, j),
                        schema.roster,
                    ),
            decreases rn - i,
        {
            proof {
                lemma_record_in_section(roff as int, rsize as int, rn as int, i as int);
                assert(record_id_spec(record_at(payload@, roff as int, rsize as int, i as int)) == t1s[i as int].id);
            }
            let rec = slice_subrange(payload, roff + i * rsize, roff + (i + 1) * rsize);
            match read_roster_into(&mut teams[i], rec, &schema.roster) {
                Ok(()) => {},
                Err(e) => {
                    proof {
                        assert(rec@ == record_at(payload@, schema.rosters.offset as int, schema.roster.size as int, i as int));
                        assert(t1s[i as int].id == ids[i as int]);
                    }
                    return Err(SaveError::Codec(e));
                },
            }
            i = i + 1;
        }
        let ghost t2s = teams@;
        proof {
            assert forall|j: int| 0 <= j < tn implies #[trigger] t2s[j].id == ids[j] && crate::codec::team::team_id_runs_match(
                ids[j],
                record_at(payload@, schema.rosters.offset as int, schema.roster.size as int, j),
                schema_runs(schema.roster),
                crate::schema::RosterField::TeamId,
            ) by {
                assert(t1s[j].id == ids[j]);
                assert(roster_applied(t1s[j], t2s[j], record_at(payload@, roff as int, rsize as int, j), schema.roster));
            }
            lemma_side_section_ids(payload@, schema.tactics, schema.tactic.size, t2s, ids);
        }
        let xn = match side_section(payload, &schema.tactics, schema.tactic.size, "tactics", &teams) {
            Ok(n) => n,
            Err(e) => {
                return Err(e);
            },
        };
        let xsize = schema.tactic.size;
        let xoff = schema.tactics.offset;
        let mut i: usize = 0;
        while i < xn
            invariant
                i <= xn,
                xn == tn,
                xoff + xn * xsize <= payload@.len(),
                teams@.len() == tn,
                t2s.len() == tn,
                side_section_ok(payload@, schema.tactics, xsize, t2s),
                forall|j: int| i <= j < tn ==> #[trigger] teams@[j] == t2s[j],
                forall|j: int|
                    0 <= j < i ==> tactics_applied(
                        t2s[j],
                        #[trigger] teams@[j],
                        record_at(payload@, xoff as int, xsize as int, j),
                        schema.tactic,
                    ),
            decreases xn - i,
        {
            proof {
                lemma_record_in_section(xoff as int, xsize as int, xn as int, i as int);
            }
            let rec = slice_subrange(payload, xoff + i * xsize, xoff + (i + 1) * xsize);
            match read_tactics_into(&mut teams[i], rec, &schema.tactic) {
                Ok(()) => {},
                Err(e) => {
                    proof {
                        assert(rec@ == record_at(payload@, schema.tactics.offset as int, schema.tactic.size as int, i as int));
                        assert(t2s[i as int].id == ids[i as int]);
                    }
                    return Err(SaveError::Codec(e));
                },
            }
            i = i + 1;
        }
        proof {
            assert forall|j: int| 0 <= j < tn implies team_texts_decode(
                #[trigger] record_at(payload@, schema.teams.offset as int, schema.team.size as int, j),
                schema.team.texts@,
            ) by {
                assert(t1s[j].id == ids[j]);
            }
            assert forall|j: int| 0 <= j < tn implies crate::codec::team::team_id_runs_match(
                ids[j],
                #[trigger] record_at(payload@, schema.rosters.offset as int, schema.roster.size as int, j),
                schema_runs(schema.roster),
                crate::schema::RosterField::TeamId,
            ) by {
                assert(t2s[j].id == ids[j]);
            }
            assert forall|j: int| 0 <= j < tn implies tactics_runs_accepted(
                ids[j],
                #[trigger] record_at(payload@, schema.tactics.offset as int, schema.tactic.size as int, j),
                tactics_runs_spec(schema.tactic),
            ) by {
                assert(t2s[j].id == ids[j]);
                assert(tactics_applied(t2s[j], teams@[j], record_at(payload@, xoff as int, xsize as int, j), schema.tactic));
            }
            assert forall|j: int| 0 <= j < tn implies team_loaded(payload@, *schema, j, #[trigger] teams@[j]) by {
                let rrec = record_at(payload@, roff as int, rsize as int, j);
                assert(team_read_from(t1s[j], record_at(payload@, toff as int, tsize as int, j), schema.team));
                assert(roster_applied(t1s[j], t2s[j], rrec, schema.roster));
                assert(record_id_spec(rrec) == t1s[j].id);
                assert(record_id_spec(record_at(payload@, xoff as int, xsize as int, j)) == t2s[j].id);
            }
        }
        Ok(teams)
}

impl EditFile {
    /// Decrypts and decodes; the version is the container's, the layout the
    /// first of `schemas` for that version.
    #[verifier::loop_isolation(false)]
    pub fn from_bytes(bytes: &[u8], keys: &[MasterKey], schemas: &'static [VersionSchema]) -> (r: Result<
        EditFile,
        SaveError,
    >)
        requires
            schemas_cover(schemas@),
        ensures
            decrypt_spec(bytes@, keys@) matches Err(e) ==> r == Err::<EditFile, SaveError>(
                SaveError::Container(e),
            ),
            decrypt_spec(bytes@, keys@) matches Ok(c) ==> (r is Ok <==> payload_readable(
                c.3,
                schemas@[schema_index(schemas@, view_version(c))],
            )),
            r matches Err(e) ==> (e is Container || e is Layout || e is Codec || e is RecordId),
            r matches Ok(f) ==> file_loaded(f@, bytes@, keys@, schemas@) && file_fits(f@),
    {
        let container = match SaveContainer::decrypt(bytes, keys) {
            Ok(c) => c,
            Err(e) => {
                return Err(SaveError::Container(e));
            },
        };
        let si = find_schema(schemas, container.version());
        proof {
            assert(has_schema(schemas@, view_version(container@)));
            assert(version_schema_wf(schemas@[si as int]));
            let w = schema_index(schemas@, view_version(container@));
            assert(0 <= w < schemas@.len() && schemas@[w].version == view_version(container@) && forall|j: int|
                0 <= j < w ==> (#[trigger] schemas@[j]).version != view_version(container@));
            if w < si {
                assert(schemas@[w].version != view_version(container@));
            } else if w > si {
                assert(schemas@[si as int].version != view_version(container@));
            }
        }
        let schema = &schemas[si];
        let payload = container.payload.as_slice();
        let plen = payload.len();
        let (players, appearance_records) = match read_players(payload, schema) {
            Ok(r) => r,
            Err(e) => {
                return Err(e);
            },
        };
        let teams = match read_teams(payload, schema) {
            Ok(t) => t,
            Err(e) => {
                return Err(e);
            },
        };
        proof {
            lemma_section_fits(payload@, schema.players, schema.player.size);
            lemma_section_fits(payload@, schema.teams, schema.team.size);
            lemma_section_fits(payload@, schema.rosters, schema.roster.size);
            lemma_section_fits(payload@, schema.tactics, schema.tactic.size);
        }
        Ok(EditFile { container, schema, players, appearance_records, teams })
    }
}


/// The index of the first player at or after `k` whose id is `id`.
pub open spec fn first_player_from(players: Seq<PlayerEntry>, id: u32, k: int) -> Option<int>
    decreases players.len() - k,
{
    if k < 0 || k >= players.len() {
        None
    } else if players[k].id == id {
        Some(k)
    } else {
        first_player_from(players, id, k + 1)
    }
}

/// The index of the first player whose id is `id`.
pub open spec fn first_player_with_id(players: Seq<PlayerEntry>, id: u32) -> Option<int> {
    first_player_from(players, id, 0)
}

/// The index of the first team at or after `k` whose id is `id`.
pub open spec fn first_team_from(teams: Seq<TeamEntry>, id: u32, k: int) -> Option<int>
    decreases teams.len() - k,
{
    if k < 0 || k >= teams.len() {
        None
    } else if teams[k].id == id {
        Some(k)
    } else {
        first_team_from(teams, id, k + 1)
    }
}

/// The index of the first team whose id is `id`.
pub open spec fn first_team_with_id(teams: Seq<TeamEntry>, id: u32) -> Option<int> {
    first_team_from(teams, id, 0)
}

/// Where the first player with `id` from `k` on stands.
pub proof fn lemma_first_player_facts(players: Seq<PlayerEntry>, id: u32, k: int)
    requires
        0 <= k,
    ensures
        match first_player_from(players, id, k) {
            Some(j) => k <= j < players.len() && players[j].id == id && forall|m: int|
                k <= m < j ==> (#[trigger] players[m]).id != id,
            None => forall|m: int| k <= m < players.len() ==> (#[trigger] players[m]).id != id,
        },
    decreases players.len() - k,
{
    if k < players.len() && players[k].id != id {
        lemma_first_player_facts(players, id, k + 1);
    }
}

/// Two player lists with the same ids position for position find every id at
/// the same place.
pub proof fn lemma_first_player_same_ids(a: Seq<PlayerEntry>, b: Seq<PlayerEntry>, id: u32, k: int)
    requires
        a.len() == b.len(),
        forall|i: int| 0 <= i < a.len() ==> (#[trigger] a[i]).id == b[i].id,
    ensures
        first_player_from(a, id, k) == first_player_from(b, id, k),
    decreases a.len() - k,
{
    if 0 <= k < a.len() {
        assert(a[k].id == b[k].id);
        lemma_first_player_same_ids(a, b, id, k + 1);
    }
}

/// The position of the first player with `id`.
pub(crate) fn position_of_player(players: &[PlayerEntry], id: u32) -> (r: Option<usize>)
    ensures
        match r {
            Some(i) => first_player_with_id(players@, id) == Some(i as int) && i < players@.len(),
            None => first_player_with_id(players@, id) is None,
        },
{
    let mut i: usize = 0;
    while i < players.len()
        invariant
            i <= players@.len(),
            first_player_with_id(players@, id) == first_player_from(players@, id, i as int),
        decreases players@.len() - i,
    {
        if players[i].id == id {
            return Some(i);
        }
        i = i + 1;
    }
    None
}

/// The position of the first team with `id`.
fn position_of_team(teams: &Vec<TeamEntry>, id: u32) -> (r: Option<usize>)
    ensures
        match r {
            Some(i) => first_team_with_id(teams@, id) == Some(i as int) && i < teams@.len(),
            None => first_team_with_id(teams@, id) is None,
        },
{
    let mut i: usize = 0;
    while i < teams.len()
        invariant
            i <= teams@.len(),
            first_team_with_id(teams@, id) == first_team_from(teams@, id, i as int),
        decreases teams@.len() - i,
    {
        if teams[i].id == id {
            return Some(i);
        }
        i = i + 1;
    }
    None
}

impl EditFile {
    /// The game version this save belongs to.
    pub fn version(&self) -> (v: PesVersion)
        ensures
            v == view_version(self@.0),
    {
        self.container.version()
    }

    /// The layout the file was read with.
    pub fn schema(&self) -> (s: &VersionSchema)
        ensures
            *s == self@.1,
    {
        self.schema
    }

    /// Every player, in record order.
    pub fn players(&self) -> (r: &[PlayerEntry])
        ensures
            r@ == self@.2,
    {
        self.players.as_slice()
    }

    /// Every player for editing, in record order.
    pub fn players_mut(&mut self) -> (r: &mut [PlayerEntry])
        ensures
            r@ == old(self)@.2,
            final(self)@ == (old(self)@.0, old(self)@.1, final(r)@, old(self)@.3, old(self)@.4),
    {
        self.players.as_mut_slice()
    }

    /// The player with `id`, if the save has one.
    pub fn player(&self, id: u32) -> (r: Option<&PlayerEntry>)
        ensures
            match first_player_with_id(self@.2, id) {
                Some(i) => r == Some(&self@.2[i]),
                None => r is None,
            },
    {
        match position_of_player(self.players.as_slice(), id) {
            Some(i) => Some(&self.players[i]),
            None => None,
        }
    }

    /// The player with `id` for editing, if the save has one.
    pub fn player_mut(&mut self, id: u32) -> (r: Option<&mut PlayerEntry>)
        ensures
            match first_player_with_id(old(self)@.2, id) {
                Some(i) => r matches Some(e) && *e == old(self)@.2[i] && final(self)@ == (
                    old(self)@.0,
                    old(self)@.1,
                    old(self)@.2.update(i, *final(e)),
                    old(self)@.3,
                    old(self)@.4,
                ),
                None => r is None && final(self)@ == old(self)@,
            },
    {
        match position_of_player(self.players.as_slice(), id) {
            Some(i) => Some(&mut self.players[i]),
            None => None,
        }
    }

    /// Every team (team, roster and tactics joined), in record order.
    pub fn teams(&self) -> (r: &[TeamEntry])
        ensures
            r@ == self@.4,
    {
        self.teams.as_slice()
    }

    /// Every team for editing, in record order.
    pub fn teams_mut(&mut self) -> (r: &mut [TeamEntry])
        ensures
            r@ == old(self)@.4,
            final(self)@ == (old(self)@.0, old(self)@.1, old(self)@.2, old(self)@.3, final(r)@),
    {
        self.teams.as_mut_slice()
    }

    /// The team with `id`, if the save has one.
    pub fn team(&self, id: u32) -> (r: Option<&TeamEntry>)
        ensures
            match first_team_with_id(self@.4, id) {
                Some(i) => r == Some(&self@.4[i]),
                None => r is None,
            },
    {
        match position_of_team(&self.teams, id) {
            Some(i) => Some(&self.teams[i]),
            None => None,
        }
    }

    /// The team with `id` for editing, if the save has one.
    pub fn team_mut(&mut self, id: u32) -> (r: Option<&mut TeamEntry>)
        ensures
            match first_team_with_id(old(self)@.4, id) {
                Some(i) => r matches Some(e) && *e == old(self)@.4[i] && final(self)@ == (
                    old(self)@.0,
                    old(self)@.1,
                    old(self)@.2,
                    old(self)@.3,
                    old(self)@.4.update(i, *final(e)),
                ),
                None => r is None && final(self)@ == old(self)@,
            },
    {
        match position_of_team(&self.teams, id) {
            Some(i) => Some(&mut self.teams[i]),
            None => None,
        }
    }
}


/// Every decoded record lies inside the retained payload, and the layout is
/// one the codec can walk.
pub open spec fn file_fits(f: FileView) -> bool {
    let payload = f.0.3;
    let s = f.1;
    &&& version_schema_wf(s)
    &&& s.players.offset + f.2.len() * s.player.size <= payload.len()
    &&& match s.appearance {
        Some((sec, a)) => f.3.len() == f.2.len() && forall|i: int|
            0 <= i < f.3.len() ==> sec.offset + ((#[trigger] f.3[i]) + 1) * a.size <= payload.len(),
        None => true,
    }
    &&& s.teams.offset + f.4.len() * s.team.size <= payload.len()
    &&& s.rosters.offset + f.4.len() * s.roster.size <= payload.len()
    &&& s.tactics.offset + f.4.len() * s.tactic.size <= payload.len()
}

/// `payload` with `bytes` written at `at`.
pub open spec fn patch_at(payload: Seq<u8>, at: int, bytes: Seq<u8>) -> Seq<u8> {
    payload.subrange(0, at) + bytes + payload.subrange(at + bytes.len(), payload.len() as int)
}

/// The payload after players `0..n` were written into their player records.
pub open spec fn players_written(payload: Seq<u8>, s: VersionSchema, players: Seq<PlayerEntry>, n: nat) -> Seq<u8>
    decreases n,
{
    if n == 0 {
        payload
    } else {
        let prev = players_written(payload, s, players, (n - 1) as nat);
        let at = s.players.offset + (n - 1) * s.player.size;
        patch_at(prev, at, player_written(players[n - 1], prev.subrange(at, at + s.player.size), s.player))
    }
}

/// The payload after players `0..n` were written into their appearance records.
pub open spec fn appearances_written(
    payload: Seq<u8>,
    s: VersionSchema,
    players: Seq<PlayerEntry>,
    apps: Seq<usize>,
    n: nat,
) -> Seq<u8>
    decreases n,
{
    if n == 0 {
        payload
    } else {
        let prev = appearances_written(payload, s, players, apps, (n - 1) as nat);
        match s.appearance {
            Some((sec, a)) => {
                let at = sec.offset + apps[n - 1] * a.size;
                patch_at(prev, at, player_written(players[n - 1], prev.subrange(at, at + a.size), a))
            },
            None => prev,
        }
    }
}

/// The team, roster and tactics record of a team, written.
pub open spec fn team_records_written(payload: Seq<u8>, s: VersionSchema, t: TeamEntry, i: int) -> Seq<u8> {
    let team_at = s.teams.offset + i * s.team.size;
    let p1 = patch_at(payload, team_at, team_written(t, payload.subrange(team_at, team_at + s.team.size), s.team));
    let roster_at = s.rosters.offset + i * s.roster.size;
    let p2 = patch_at(
        p1,
        roster_at,
        write_runs_spec(
            p1.subrange(roster_at, roster_at + s.roster.size),
            run_writes(|g: crate::schema::RosterField| crate::model::team::roster_field_value(t, g), crate::schema::schema_runs(s.roster)),
        ),
    );
    let tactics_at = s.tactics.offset + i * s.tactic.size;
    patch_at(
        p2,
        tactics_at,
        write_runs_spec(
            p2.subrange(tactics_at, tactics_at + s.tactic.size),
            run_writes(|g: crate::schema::TacticsField| crate::model::tactics::tactics_value(t, g), crate::codec::team::tactics_runs_spec(s.tactic)),
        ),
    )
}

/// The payload after teams `0..n` were written into their records.
pub open spec fn teams_written(payload: Seq<u8>, s: VersionSchema, teams: Seq<TeamEntry>, n: nat) -> Seq<u8>
    decreases n,
{
    if n == 0 {
        payload
    } else {
        team_records_written(teams_written(payload, s, teams, (n - 1) as nat), s, teams[n - 1], n - 1)
    }
}

/// The payload with every player and team written back.
pub open spec fn payload_written(f: FileView) -> Seq<u8> {
    let s = f.1;
    let p1 = players_written(f.0.3, s, f.2, f.2.len());
    let p2 = appearances_written(p1, s, f.2, f.3, f.2.len());
    teams_written(p2, s, f.4, f.4.len())
}

/// Every player and team can be written: each value fits its run and each
/// text its field.
pub open spec fn file_writable(f: FileView) -> bool {
    let s = f.1;
    &&& forall|i: int|
        0 <= i < f.2.len() ==> {
            &&& player_runs_writable(#[trigger] f.2[i], crate::schema::schema_runs(s.player))
            &&& player_texts_writable(f.2[i], s.player.texts@) && player_face_fits(f.2[i], s.player)
            &&& match s.appearance {
                Some((_, a)) => player_runs_writable(f.2[i], crate::schema::schema_runs(a))
                    && player_texts_writable(f.2[i], a.texts@) && player_face_fits(f.2[i], a),
                None => true,
            }
        }
    &&& forall|i: int|
        0 <= i < f.4.len() ==> {
            &&& runs_writable(|g: crate::schema::TeamField| crate::model::team::team_field_value(#[trigger] f.4[i], g), crate::schema::schema_runs(s.team))
            &&& texts_writable(|x: crate::schema::TeamText| team_text_bytes(f.4[i], x), s.team.texts@)
            &&& runs_writable(|g: crate::schema::RosterField| crate::model::team::roster_field_value(f.4[i], g), crate::schema::schema_runs(s.roster))
            &&& runs_writable(|g: crate::schema::TacticsField| crate::model::tactics::tactics_value(f.4[i], g), crate::codec::team::tactics_runs_spec(s.tactic))
        }
}

/// Writes `bytes` into `payload` at `at`.
pub(crate) fn put_bytes(payload: &mut Vec<u8>, at: usize, bytes: &[u8])
    requires
        at + bytes@.len() <= old(payload)@.len(),
    ensures
        final(payload)@ == patch_at(old(payload)@, at as int, bytes@),
{
    let len = payload.len();
    let mut k: usize = 0;
    while k < bytes.len()
        invariant
            k <= bytes@.len(),
            len == payload@.len(),
            at + bytes@.len() <= payload@.len(),
            payload@.len() == old(payload)@.len(),
            forall|t: int| 0 <= t < payload@.len() && !(at <= t < at + k) ==> payload@[t] == old(payload)@[t],
            forall|t: int| 0 <= t < k ==> payload@[at + t] == bytes@[t],
        decreases bytes@.len() - k,
    {
        payload.set(at + k, bytes[k]);
        k = k + 1;
    }
    assert(payload@ =~= patch_at(old(payload)@, at as int, bytes@));
}


/// Writes players `0..n` into their player records.
fn write_players_into(payload: &mut Vec<u8>, s: &VersionSchema, players: &Vec<PlayerEntry>) -> (r: Result<(), CodecError>)
    requires
        version_schema_wf(*s),
        s.players.offset + players@.len() * s.player.size <= old(payload)@.len(),
    ensures
        final(payload)@.len() == old(payload)@.len(),
        r is Ok <==> forall|i: int|
            0 <= i < players@.len() ==> player_runs_writable(#[trigger] players@[i], crate::schema::schema_runs(s.player))
                && player_texts_writable(players@[i], s.player.texts@) && player_face_fits(players@[i], s.player),
        r is Ok ==> final(payload)@ == players_written(old(payload)@, *s, players@, players@.len()),
{
    let size = s.player.size;
    let off = s.players.offset;
    let n = players.len();
    let plen = payload.len();
    let mut i: usize = 0;
    while i < n
        invariant
            i <= n,
            plen == payload@.len(),
            n == players@.len(),
            size == s.player.size,
            off == s.players.offset,
            version_schema_wf(*s),
            off + n * size <= payload@.len(),
            payload@.len() == old(payload)@.len(),
            forall|j: int|
                0 <= j < i ==> player_runs_writable(#[trigger] players@[j], crate::schema::schema_runs(s.player))
                    && player_texts_writable(players@[j], s.player.texts@) && player_face_fits(players@[j], s.player),
            payload@ == players_written(old(payload)@, *s, players@, i as nat),
        decreases n - i,
    {
        proof {
            lemma_record_in_section(off as int, size as int, n as int, i as int);
        }
        let at = off + i * size;
        let mut rec = slice_to_vec(slice_subrange(payload.as_slice(), at, at + size));
        match write_player(&players[i], rec.as_mut_slice(), &s.player) {
            Ok(()) => {},
            Err(e) => {
                return Err(e);
            },
        }
        put_bytes(payload, at, rec.as_slice());
        i = i + 1;
    }
    Ok(())
}

/// Writes every player into its appearance record.
fn write_appearances_into(
    payload: &mut Vec<u8>,
    s: &VersionSchema,
    players: &Vec<PlayerEntry>,
    apps: &Vec<usize>,
) -> (r: Result<(), CodecError>)
    requires
        version_schema_wf(*s),
        match s.appearance {
            Some((sec, a)) => apps@.len() == players@.len() && forall|i: int|
                0 <= i < apps@.len() ==> sec.offset + ((#[trigger] apps@[i]) + 1) * a.size <= old(payload)@.len(),
            None => true,
        },
    ensures
        final(payload)@.len() == old(payload)@.len(),
        r is Ok <==> match s.appearance {
            Some((_, a)) => forall|i: int|
                0 <= i < players@.len() ==> player_runs_writable(#[trigger] players@[i], crate::schema::schema_runs(a))
                    && player_texts_writable(players@[i], a.texts@) && player_face_fits(players@[i], a),
            None => true,
        },
        r is Ok ==> final(payload)@ == appearances_written(old(payload)@, *s, players@, apps@, players@.len()),
{
    match &s.appearance {
        Some((section, appearance)) => {
            let n = players.len();
            let plen = payload.len();
            let mut i: usize = 0;
            while i < n
                invariant
                    i <= n,
                    plen == payload@.len(),
                    n == players@.len(),
                    apps@.len() == n,
                    s.appearance == Some((*section, *appearance)),
                    version_schema_wf(*s),
                    forall|j: int|
                        0 <= j < apps@.len() ==> section.offset + ((#[trigger] apps@[j]) + 1) * appearance.size
                            <= payload@.len(),
                    payload@.len() == old(payload)@.len(),
                    forall|j: int|
                        0 <= j < i ==> player_runs_writable(#[trigger] players@[j], crate::schema::schema_runs(*appearance))
                            && player_texts_writable(players@[j], appearance.texts@) && player_face_fits(players@[j], *appearance),
                    payload@ == appearances_written(old(payload)@, *s, players@, apps@, i as nat),
                decreases n - i,
            {
                let k = apps[i];
                proof {
                    assert(section.offset + (apps@[i as int] + 1) * appearance.size <= payload@.len());
                    assert(k * appearance.size + appearance.size == (k + 1) * appearance.size) by (nonlinear_arith);
                    assert(0 <= k * appearance.size) by (nonlinear_arith);
                }
                let at = section.offset + k * appearance.size;
                let mut rec = slice_to_vec(slice_subrange(payload.as_slice(), at, at + appearance.size));
                match write_player(&players[i], rec.as_mut_slice(), appearance) {
                    Ok(()) => {},
                    Err(e) => {
                        return Err(e);
                    },
                }
                put_bytes(payload, at, rec.as_slice());
                i = i + 1;
            }
            Ok(())
        },
        None => {
            proof {
                let n = players@.len();
                assert(appearances_written(old(payload)@, *s, players@, apps@, n) == old(payload)@) by {
                    lemma_no_appearances(old(payload)@, *s, players@, apps@, n);
                }
            }
            Ok(())
        },
    }
}

proof fn lemma_no_appearances(payload: Seq<u8>, s: VersionSchema, players: Seq<PlayerEntry>, apps: Seq<usize>, n: nat)
    requires
        s.appearance is None,
    ensures
        appearances_written(payload, s, players, apps, n) == payload,
    decreases n,
{
    if n > 0 {
        lemma_no_appearances(payload, s, players, apps, (n - 1) as nat);
    }
}

/// Writes teams `0..n` into their team, roster and tactics records.
fn write_teams_into(payload: &mut Vec<u8>, s: &VersionSchema, teams: &Vec<TeamEntry>) -> (r: Result<(), CodecError>)
    requires
        version_schema_wf(*s),
        s.teams.offset + teams@.len() * s.team.size <= old(payload)@.len(),
        s.rosters.offset + teams@.len() * s.roster.size <= old(payload)@.len(),
        s.tactics.offset + teams@.len() * s.tactic.size <= old(payload)@.len(),
    ensures
        final(payload)@.len() == old(payload)@.len(),
        r is Ok <==> forall|i: int|
            0 <= i < teams@.len() ==> {
                &&& runs_writable(|g: crate::schema::TeamField| crate::model::team::team_field_value(#[trigger] teams@[i], g), crate::schema::schema_runs(s.team))
                &&& texts_writable(|x: crate::schema::TeamText| team_text_bytes(teams@[i], x), s.team.texts@)
                &&& runs_writable(|g: crate::schema::RosterField| crate::model::team::roster_field_value(teams@[i], g), crate::schema::schema_runs(s.roster))
                &&& runs_writable(|g: crate::schema::TacticsField| crate::model::tactics::tactics_value(teams@[i], g), crate::codec::team::tactics_runs_spec(s.tactic))
            },
        r is Ok ==> final(payload)@ == teams_written(old(payload)@, *s, teams@, teams@.len()),
{
    let n = teams.len();
    let plen = payload.len();
    let mut i: usize = 0;
    while i < n
        invariant
            i <= n,
            plen == payload@.len(),
            n == teams@.len(),
            version_schema_wf(*s),
            s.teams.offset + n * s.team.size <= payload@.len(),
            s.rosters.offset + n * s.roster.size <= payload@.len(),
            s.tactics.offset + n * s.tactic.size <= payload@.len(),
            payload@.len() == old(payload)@.len(),
            forall|j: int|
                0 <= j < i ==> {
                    &&& runs_writable(|g: crate::schema::TeamField| crate::model::team::team_field_value(#[trigger] teams@[j], g), crate::schema::schema_runs(s.team))
                    &&& texts_writable(|x: crate::schema::TeamText| team_text_bytes(teams@[j], x), s.team.texts@)
                    &&& runs_writable(|g: crate::schema::RosterField| crate::model::team::roster_field_value(teams@[j], g), crate::schema::schema_runs(s.roster))
                    &&& runs_writable(|g: crate::schema::TacticsField| crate::model::tactics::tactics_value(teams@[j], g), crate::codec::team::tactics_runs_spec(s.tactic))
                },
            payload@ == teams_written(old(payload)@, *s, teams@, i as nat),
        decreases n - i,
    {
        proof {
            lemma_record_in_section(s.teams.offset as int, s.team.size as int, n as int, i as int);
            lemma_record_in_section(s.rosters.offset as int, s.roster.size as int, n as int, i as int);
            lemma_record_in_section(s.tactics.offset as int, s.tactic.size as int, n as int, i as int);
        }
        let team = &teams[i];
        let team_at = s.teams.offset + i * s.team.size;
        let mut rec = slice_to_vec(slice_subrange(payload.as_slice(), team_at, team_at + s.team.size));
        match write_team(team, rec.as_mut_slice(), &s.team) {
            Ok(()) => {},
            Err(e) => {
                return Err(e);
            },
        }
        put_bytes(payload, team_at, rec.as_slice());
        let roster_at = s.rosters.offset + i * s.roster.size;
        let mut rec = slice_to_vec(slice_subrange(payload.as_slice(), roster_at, roster_at + s.roster.size));
        match write_roster(team, rec.as_mut_slice(), &s.roster) {
            Ok(()) => {},
            Err(e) => {
                return Err(e);
            },
        }
        put_bytes(payload, roster_at, rec.as_slice());
        let tactics_at = s.tactics.offset + i * s.tactic.size;
        let mut rec = slice_to_vec(slice_subrange(payload.as_slice(), tactics_at, tactics_at + s.tactic.size));
        match write_tactics(team, rec.as_mut_slice(), &s.tactic) {
            Ok(()) => {},
            Err(e) => {
                return Err(e);
            },
        }
        put_bytes(payload, tactics_at, rec.as_slice());
        i = i + 1;
    }
    Ok(())
}


/// A container view with its payload replaced.
pub open spec fn with_payload(c: ContainerView, payload: Seq<u8>) -> ContainerView {
    (c.0, c.1, c.2, payload, c.4, c.5)
}

impl EditFile {
    /// Every player and team written back into the retained payload, then
    /// re-encrypted under `salt`. The record order and count are the file's
    /// own (no player or team is added or removed through this API).
    pub fn to_bytes(&self, salt: &[u8; 320]) -> (r: Result<Vec<u8>, SaveError>)
        requires
            file_fits(self@),
        ensures
            !file_writable(self@) ==> (r matches Err(e) && e is Codec),
            file_writable(self@) ==> match to_bytes_spec(with_payload(self@.0, payload_written(self@)), salt@) {
                Ok(b) => r matches Ok(out) && out@ == b,
                Err(e) => r == Err::<Vec<u8>, SaveError>(SaveError::Container(e)),
            },
    {
        let schema = self.schema;
        let mut payload = slice_to_vec(self.container.payload.as_slice());
        match write_players_into(&mut payload, schema, &self.players) {
            Ok(()) => {},
            Err(e) => {
                return Err(SaveError::Codec(e));
            },
        }
        match write_appearances_into(&mut payload, schema, &self.players, &self.appearance_records) {
            Ok(()) => {},
            Err(e) => {
                return Err(SaveError::Codec(e));
            },
        }
        match write_teams_into(&mut payload, schema, &self.teams) {
            Ok(()) => {},
            Err(e) => {
                return Err(SaveError::Codec(e));
            },
        }
        let container = SaveContainer {
            scheme: self.container.scheme,
            description: slice_to_vec(self.container.description.as_slice()),
            logo: slice_to_vec(self.container.logo.as_slice()),
            payload,
            identifier: slice_to_vec(self.container.identifier.as_slice()),
            serial: slice_to_vec(self.container.serial.as_slice()),
        };
        match container.to_bytes(salt) {
            Ok(b) => Ok(b),
            Err(e) => Err(SaveError::Container(e)),
        }
    }
}


/// Writing a record's own bytes back changes nothing.
pub(crate) proof fn lemma_patch_own_bytes(payload: Seq<u8>, at: int, len: int)
    requires
        0 <= at,
        0 <= len,
        at + len <= payload.len(),
    ensures
        patch_at(payload, at, payload.subrange(at, at + len)) == payload,
{
    assert(patch_at(payload, at, payload.subrange(at, at + len)) =~= payload);
}

/// Each record kind writes back the bytes it read: no two runs of a record
/// carry one field, no run is wider than the model's hold of its field, no two
/// text fields carry one text, every text field of a loaded record holds a
/// NUL, and the appearance record shares no field, text or ingame-face run
/// with the player record.
pub open spec fn layout_round_trips(f: FileView) -> bool {
    let s = f.1;
    let payload = f.0.3;
    &&& player_runs_round_trip(schema_runs(s.player))
    &&& forall|i: int|
        0 <= i < f.2.len() ==> player_texts_round_trip(
            #[trigger] record_at(payload, s.players.offset as int, s.player.size as int, i),
            s.player.texts@,
        )
    &&& match s.appearance {
        Some((sec, a)) => {
            &&& player_runs_round_trip(schema_runs(a))
            &&& forall|i: int|
                0 <= i < f.2.len() ==> player_texts_round_trip(
                    record_at(payload, sec.offset as int, a.size as int, #[trigger] f.3[i] as int),
                    a.texts@,
                )
            &&& forall|j: int, k: int|
                0 <= j < schema_runs(a).len() && 0 <= k < schema_runs(s.player).len() ==> (
                #[trigger] schema_runs(a)[j]).0 != (#[trigger] schema_runs(s.player)[k]).0
            &&& forall|j: int, k: int|
                0 <= j < a.texts@.len() && 0 <= k < s.player.texts@.len() ==> (
                #[trigger] a.texts@[j]).text != (#[trigger] s.player.texts@[k]).text
            &&& (s.player.ingame_face is None || a.ingame_face is None)
        },
        None => true,
    }
    &&& team_runs_round_trip(schema_runs(s.team))
    &&& forall|i: int|
        0 <= i < f.4.len() ==> team_texts_round_trip(
            #[trigger] record_at(payload, s.teams.offset as int, s.team.size as int, i),
            s.team.texts@,
        )
    &&& roster_runs_round_trip(schema_runs(s.roster))
    &&& tactics_runs_round_trip(tactics_runs_spec(s.tactic))
}

/// A player read from its player record, then its appearance record applied,
/// writes both records back unchanged, where each record kind round-trips
/// and the two records share no field, no text and no ingame-face run.
pub(crate) proof fn lemma_player_pair_unchanged(
    s: VersionSchema,
    a: crate::schema::RecordSchema<crate::schema::PlayerField, crate::schema::PlayerText>,
    rec: Seq<u8>,
    arec: Seq<u8>,
    p0: PlayerEntry,
    p: PlayerEntry,
)
    requires
        version_schema_wf(s),
        record_schema_wf(a),
        rec.len() == s.player.size,
        arec.len() == a.size,
        player_read_from(p0, rec, s.player),
        player_runs_in_range(schema_runs(a)),
        player_texts_decode(arec, a.texts@),
        player_read_post(p0, p, arec, a),
        player_runs_round_trip(schema_runs(s.player)),
        player_texts_round_trip(rec, s.player.texts@),
        player_runs_round_trip(schema_runs(a)),
        player_texts_round_trip(arec, a.texts@),
        forall|j: int, k: int|
            0 <= j < schema_runs(a).len() && 0 <= k < schema_runs(s.player).len() ==> (
            #[trigger] schema_runs(a)[j]).0 != (#[trigger] schema_runs(s.player)[k]).0,
        forall|j: int, k: int|
            0 <= j < a.texts@.len() && 0 <= k < s.player.texts@.len() ==> (
            #[trigger] a.texts@[j]).text != (#[trigger] s.player.texts@[k]).text,
        s.player.ingame_face is None || a.ingame_face is None,
    ensures
        player_runs_writable(p, schema_runs(s.player)),
        player_texts_writable(p, s.player.texts@) && player_face_fits(p, s.player),
        player_written(p, rec, s.player) == rec,
        player_runs_writable(p, schema_runs(a)),
        player_texts_writable(p, a.texts@) && player_face_fits(p, a),
        player_written(p, arec, a) == arec,
{
    let d = choose|d: PlayerEntry| d.is_default() && player_read_post(d, p0, rec, s.player);
    law_write_after_read_keeps_the_record(d, p0, rec, s.player);
    law_write_after_read_keeps_the_record(p0, p, arec, a);
    // The player record's fields and texts are not the appearance
    // record's, so they hold what the player record gave.
    let pr = schema_runs(s.player);
    let ar = schema_runs(a);
    assert forall|k: int| 0 <= k < pr.len() implies player_field_value(p, (#[trigger] pr[k]).0)
        == player_field_value(p0, pr[k].0) by {
        let g = pr[k].0;
        lemma_last_run_index_facts(ar, g);
        match last_run_index(ar, g) {
            Some(j) => {
                assert(ar[j].0 != pr[k].0);
            },
            None => {},
        }
    }
    assert(player_run_writes(p, pr) =~= player_run_writes(p0, pr));
    let pt = s.player.texts@;
    let at = a.texts@;
    assert forall|k: int| 0 <= k < pt.len() implies player_text_bytes(p, (#[trigger] pt[k]).text)
        == player_text_bytes(p0, pt[k].text) by {
        let x = pt[k].text;
        lemma_last_text_index_facts(at, x);
        match last_text_index(at, x) {
            Some(j) => {
                assert(at[j].text != pt[k].text);
            },
            None => {},
        }
    }
    assert(player_text_writes(p, pt) =~= player_text_writes(p0, pt));
}

/// A loaded player writes its player record and its appearance record back
/// unchanged.
proof fn lemma_player_records_unchanged(f: FileView, i: int)
    requires
        version_schema_wf(f.1),
        layout_round_trips(f),
        players_loaded(f.0.3, f.1, f.2, f.3),
        0 <= i < f.2.len(),
        f.1.players.offset + f.2.len() * f.1.player.size <= f.0.3.len(),
    ensures
        ({
            let s = f.1;
            let payload = f.0.3;
            let p = f.2[i];
            let rec = record_at(payload, s.players.offset as int, s.player.size as int, i);
            &&& player_runs_writable(p, schema_runs(s.player))
            &&& player_texts_writable(p, s.player.texts@) && player_face_fits(p, s.player)
            &&& player_written(p, rec, s.player) == rec
            &&& match s.appearance {
                Some((sec, a)) => {
                    let arec = record_at(payload, sec.offset as int, a.size as int, f.3[i] as int);
                    &&& player_runs_writable(p, schema_runs(a))
                    &&& player_texts_writable(p, a.texts@) && player_face_fits(p, a)
                    &&& player_written(p, arec, a) == arec
                },
                None => true,
            }
        }),
{
    let s = f.1;
    let payload = f.0.3;
    let p = f.2[i];
    let app = if s.appearance is Some { f.3[i] } else { 0 };
    let rec = record_at(payload, s.players.offset as int, s.player.size as int, i);
    assert(player_loaded(payload, s, i, p, app));
    let p0 = choose|p0: PlayerEntry|
        {
            &&& #[trigger] player_read_from(p0, rec, s.player)
            &&& match s.appearance {
                None => p == p0,
                Some((sec, a)) => {
                    let arec = record_at(payload, sec.offset as int, a.size as int, app as int);
                    &&& section_count_spec(payload, sec, a.size) matches Ok(m) && app < m
                    &&& record_id_spec(arec) == p0.id
                    &&& forall|k: int|
                        0 <= k < app ==> record_id_spec(
                            #[trigger] record_at(payload, sec.offset as int, a.size as int, k),
                        ) != p0.id
                    &&& player_runs_in_range(schema_runs(a))
                    &&& player_texts_decode(arec, a.texts@)
                    &&& player_read_post(p0, p, arec, a)
                },
            }
        };
    let d = choose|d: PlayerEntry| d.is_default() && player_read_post(d, p0, rec, s.player);
    lemma_record_in_section(s.players.offset as int, s.player.size as int, f.2.len() as int, i);
    assert(rec.len() == s.player.size);
    law_write_after_read_keeps_the_record(d, p0, rec, s.player);
    match s.appearance {
        None => {},
        Some((sec, a)) => {
            let arec = record_at(payload, sec.offset as int, a.size as int, app as int);
            let m = section_count_spec(payload, sec, a.size)->Ok_0;
            lemma_section_fits(payload, sec, a.size);
            lemma_record_in_section(sec.offset as int, a.size as int, m as int, app as int);
            assert(arec.len() == a.size);
            lemma_player_pair_unchanged(s, a, rec, arec, p0, p);
        },
    }
}

/// A team read from its team record, then its roster and tactics records
/// applied, writes the three records back unchanged, where each record kind
/// round-trips.
pub(crate) proof fn lemma_team_triple_unchanged(
    s: VersionSchema,
    trec: Seq<u8>,
    rrec: Seq<u8>,
    xrec: Seq<u8>,
    t1: TeamEntry,
    t2: TeamEntry,
    t: TeamEntry,
)
    requires
        version_schema_wf(s),
        trec.len() == s.team.size,
        rrec.len() == s.roster.size,
        xrec.len() == s.tactic.size,
        team_read_from(t1, trec, s.team),
        roster_applied(t1, t2, rrec, s.roster),
        tactics_applied(t2, t, xrec, s.tactic),
        team_runs_round_trip(schema_runs(s.team)),
        team_texts_round_trip(trec, s.team.texts@),
        roster_runs_round_trip(schema_runs(s.roster)),
        tactics_runs_round_trip(tactics_runs_spec(s.tactic)),
    ensures
        runs_writable(|g: crate::schema::TeamField| crate::model::team::team_field_value(t, g), schema_runs(s.team)),
        texts_writable(|x: crate::schema::TeamText| team_text_bytes(t, x), s.team.texts@),
        runs_writable(|g: crate::schema::RosterField| crate::model::team::roster_field_value(t, g), schema_runs(s.roster)),
        runs_writable(|g: crate::schema::TacticsField| crate::model::tactics::tactics_value(t, g), tactics_runs_spec(s.tactic)),
        team_written(t, trec, s.team) == trec,
        write_runs_spec(
            rrec,
            run_writes(|g: crate::schema::RosterField| crate::model::team::roster_field_value(t, g), schema_runs(s.roster)),
        ) == rrec,
        write_runs_spec(
            xrec,
            run_writes(|g: crate::schema::TacticsField| crate::model::tactics::tactics_value(t, g), tactics_runs_spec(s.tactic)),
        ) == xrec,
{
    let d = choose|d: TeamEntry| d.is_default() && team_read_post(d, t1, trec, s.team);
    law_team_write_after_read_keeps_the_record(d, t1, trec, s.team);
    law_roster_write_after_read_keeps_the_record(t1, t2, rrec, s.roster);
    law_tactics_write_after_read_keeps_the_record(t2, t, xrec, s.tactic);
    // The tactics read keeps the id: a team-id run holds it.
    let truns = tactics_runs_spec(s.tactic);
    let tid = crate::schema::TacticsField::TeamId;
    assert(crate::model::tactics::tactics_value(t, tid) == tactics_value_after(t2, xrec, truns, tid));
    lemma_last_run_index_facts(truns, tid);
    match last_run_index(truns, tid) {
        Some(k) => {
            assert(tactics_runs_accepted(t2.id, xrec, truns));
            assert(crate::codec::team::tactics_run_accepted(
                t2.id,
                truns[k].0,
                crate::codec::bits::run_value(xrec, truns[k].1 as int, truns[k].2),
            ));
        },
        None => {},
    }
    assert(t.id == t2.id);
    crate::codec::team::lemma_team_values_ignore_texts(t, t1);
    assert((|g: crate::schema::TeamField| crate::model::team::team_field_value(t, g))
        =~= (|g: crate::schema::TeamField| crate::model::team::team_field_value(t1, g)));
    assert((|x: crate::schema::TeamText| team_text_bytes(t, x)) =~= (|x: crate::schema::TeamText| team_text_bytes(t1, x)));
    assert((|g: crate::schema::RosterField| crate::model::team::roster_field_value(t, g))
        =~= (|g: crate::schema::RosterField| crate::model::team::roster_field_value(t2, g)));
}

/// A loaded team writes its team, roster and tactics records back unchanged.
proof fn lemma_team_records_unchanged(f: FileView, i: int)
    requires
        version_schema_wf(f.1),
        layout_round_trips(f),
        teams_loaded(f.0.3, f.1, f.4),
        0 <= i < f.4.len(),
    ensures
        ({
            let s = f.1;
            let payload = f.0.3;
            let t = f.4[i];
            let trec = record_at(payload, s.teams.offset as int, s.team.size as int, i);
            let rrec = record_at(payload, s.rosters.offset as int, s.roster.size as int, i);
            let xrec = record_at(payload, s.tactics.offset as int, s.tactic.size as int, i);
            &&& runs_writable(|g: crate::schema::TeamField| crate::model::team::team_field_value(t, g), schema_runs(s.team))
            &&& texts_writable(|x: crate::schema::TeamText| team_text_bytes(t, x), s.team.texts@)
            &&& runs_writable(|g: crate::schema::RosterField| crate::model::team::roster_field_value(t, g), schema_runs(s.roster))
            &&& runs_writable(|g: crate::schema::TacticsField| crate::model::tactics::tactics_value(t, g), tactics_runs_spec(s.tactic))
            &&& team_written(t, trec, s.team) == trec
            &&& write_runs_spec(
                rrec,
                run_writes(|g: crate::schema::RosterField| crate::model::team::roster_field_value(t, g), schema_runs(s.roster)),
            ) == rrec
            &&& write_runs_spec(
                xrec,
                run_writes(|g: crate::schema::TacticsField| crate::model::tactics::tactics_value(t, g), tactics_runs_spec(s.tactic)),
            ) == xrec
        }),
{
    let s = f.1;
    let payload = f.0.3;
    let t = f.4[i];
    let n = f.4.len();
    let trec = record_at(payload, s.teams.offset as int, s.team.size as int, i);
    let rrec = record_at(payload, s.rosters.offset as int, s.roster.size as int, i);
    let xrec = record_at(payload, s.tactics.offset as int, s.tactic.size as int, i);
    assert(team_loaded(payload, s, i, t));
    let (t1, t2) = choose|t1: TeamEntry, t2: TeamEntry|
        #![trigger team_read_from(t1, record_at(payload, s.teams.offset as int, s.team.size as int, i), s.team), roster_applied(t1, t2, record_at(payload, s.rosters.offset as int, s.roster.size as int, i), s.roster)]
        {
            &&& team_read_from(t1, record_at(payload, s.teams.offset as int, s.team.size as int, i), s.team)
            &&& record_id_spec(rrec) == t1.id
            &&& roster_applied(t1, t2, rrec, s.roster)
            &&& record_id_spec(xrec) == t2.id
            &&& tactics_applied(t2, t, xrec, s.tactic)
        };
    lemma_section_fits(payload, s.teams, s.team.size);
    lemma_section_fits(payload, s.rosters, s.roster.size);
    lemma_section_fits(payload, s.tactics, s.tactic.size);
    lemma_record_in_section(s.teams.offset as int, s.team.size as int, n as int, i);
    lemma_record_in_section(s.rosters.offset as int, s.roster.size as int, n as int, i);
    lemma_record_in_section(s.tactics.offset as int, s.tactic.size as int, n as int, i);
    lemma_team_triple_unchanged(s, trec, rrec, xrec, t1, t2, t);
}

proof fn lemma_players_written_same(payload: Seq<u8>, s: VersionSchema, players: Seq<PlayerEntry>, n: nat)
    requires
        n <= players.len(),
        s.players.offset + players.len() * s.player.size <= payload.len(),
        forall|i: int|
            0 <= i < n ==> player_written(
                #[trigger] players[i],
                record_at(payload, s.players.offset as int, s.player.size as int, i),
                s.player,
            ) == record_at(payload, s.players.offset as int, s.player.size as int, i),
    ensures
        players_written(payload, s, players, n) == payload,
    decreases n,
{
    if n > 0 {
        lemma_players_written_same(payload, s, players, (n - 1) as nat);
        let i = n - 1;
        lemma_record_in_section(s.players.offset as int, s.player.size as int, players.len() as int, i);
        let at = s.players.offset + i * s.player.size;
        assert(players[i] == players[n - 1]);
        lemma_patch_own_bytes(payload, at, s.player.size as int);
    }
}

proof fn lemma_appearances_written_same(
    payload: Seq<u8>,
    s: VersionSchema,
    players: Seq<PlayerEntry>,
    apps: Seq<usize>,
    n: nat,
)
    requires
        n <= players.len(),
        s.appearance is Some ==> n <= apps.len(),
        match s.appearance {
            Some((sec, a)) => forall|i: int|
                0 <= i < n ==> {
                    &&& sec.offset + ((#[trigger] apps[i]) + 1) * a.size <= payload.len()
                    &&& player_written(
                        players[i],
                        record_at(payload, sec.offset as int, a.size as int, apps[i] as int),
                        a,
                    ) == record_at(payload, sec.offset as int, a.size as int, apps[i] as int)
                },
            None => true,
        },
    ensures
        appearances_written(payload, s, players, apps, n) == payload,
    decreases n,
{
    if n > 0 {
        lemma_appearances_written_same(payload, s, players, apps, (n - 1) as nat);
        match s.appearance {
            Some((sec, a)) => {
                let i = n - 1;
                let k = apps[i];
                assert(sec.offset + (apps[i] + 1) * a.size <= payload.len());
                assert(k * a.size + a.size == (k + 1) * a.size) by (nonlinear_arith);
                assert(0 <= k * a.size) by (nonlinear_arith);
                lemma_patch_own_bytes(payload, sec.offset + k * a.size, a.size as int);
            },
            None => {},
        }
    }
}

proof fn lemma_teams_written_same(payload: Seq<u8>, s: VersionSchema, teams: Seq<TeamEntry>, n: nat)
    requires
        n <= teams.len(),
        s.teams.offset + teams.len() * s.team.size <= payload.len(),
        s.rosters.offset + teams.len() * s.roster.size <= payload.len(),
        s.tactics.offset + teams.len() * s.tactic.size <= payload.len(),
        forall|i: int|
            0 <= i < n ==> {
                let t = #[trigger] teams[i];
                let trec = record_at(payload, s.teams.offset as int, s.team.size as int, i);
                let rrec = record_at(payload, s.rosters.offset as int, s.roster.size as int, i);
                let xrec = record_at(payload, s.tactics.offset as int, s.tactic.size as int, i);
                &&& team_written(t, trec, s.team) == trec
                &&& write_runs_spec(
                    rrec,
                    run_writes(|g: crate::schema::RosterField| crate::model::team::roster_field_value(t, g), schema_runs(s.roster)),
                ) == rrec
                &&& write_runs_spec(
                    xrec,
                    run_writes(|g: crate::schema::TacticsField| crate::model::tactics::tactics_value(t, g), tactics_runs_spec(s.tactic)),
                ) == xrec
            },
    ensures
        teams_written(payload, s, teams, n) == payload,
    decreases n,
{
    if n > 0 {
        lemma_teams_written_same(payload, s, teams, (n - 1) as nat);
        let i = n - 1;
        assert(teams[i] == teams[n - 1]);
        lemma_record_in_section(s.teams.offset as int, s.team.size as int, teams.len() as int, i);
        lemma_record_in_section(s.rosters.offset as int, s.roster.size as int, teams.len() as int, i);
        lemma_record_in_section(s.tactics.offset as int, s.tactic.size as int, teams.len() as int, i);
        lemma_patch_own_bytes(payload, s.teams.offset + i * s.team.size, s.team.size as int);
        lemma_patch_own_bytes(payload, s.rosters.offset + i * s.roster.size, s.roster.size as int);
        lemma_patch_own_bytes(payload, s.tactics.offset + i * s.tactic.size, s.tactic.size as int);
    }
}

/// Every loaded player can be written, and writing the players and their
/// appearance records back leaves the payload as it was.
proof fn lemma_players_write_back(f: FileView)
    requires
        version_schema_wf(f.1),
        layout_round_trips(f),
        players_loaded(f.0.3, f.1, f.2, f.3),
    ensures
        forall|i: int|
            0 <= i < f.2.len() ==> {
                &&& player_runs_writable(#[trigger] f.2[i], schema_runs(f.1.player))
                &&& player_texts_writable(f.2[i], f.1.player.texts@) && player_face_fits(f.2[i], f.1.player)
                &&& match f.1.appearance {
                    Some((_, a)) => player_runs_writable(f.2[i], schema_runs(a))
                        && player_texts_writable(f.2[i], a.texts@) && player_face_fits(f.2[i], a),
                    None => true,
                }
            },
        players_written(f.0.3, f.1, f.2, f.2.len()) == f.0.3,
        appearances_written(f.0.3, f.1, f.2, f.3, f.2.len()) == f.0.3,
{
    let s = f.1;
    let payload = f.0.3;
    lemma_section_fits(payload, s.players, s.player.size);
    assert forall|i: int| 0 <= i < f.2.len() implies ({
        let p = #[trigger] f.2[i];
        &&& player_runs_writable(p, schema_runs(s.player))
        &&& player_texts_writable(p, s.player.texts@) && player_face_fits(p, s.player)
        &&& player_written(p, record_at(payload, s.players.offset as int, s.player.size as int, i), s.player)
            == record_at(payload, s.players.offset as int, s.player.size as int, i)
        &&& match s.appearance {
            Some((sec, a)) => {
                let arec = record_at(payload, sec.offset as int, a.size as int, f.3[i] as int);
                &&& player_runs_writable(p, schema_runs(a))
                &&& player_texts_writable(p, a.texts@) && player_face_fits(p, a)
                &&& player_written(p, arec, a) == arec
                &&& sec.offset + (f.3[i] + 1) * a.size <= payload.len()
            },
            None => true,
        }
    }) by {
        lemma_player_records_unchanged(f, i);
        match s.appearance {
            Some((sec, a)) => {
                let app = f.3[i];
                assert(player_loaded(payload, s, i, f.2[i], app));
                let p0 = choose|p0: PlayerEntry|
                    {
                        &&& #[trigger] player_read_from(
                            p0,
                            record_at(payload, s.players.offset as int, s.player.size as int, i),
                            s.player,
                        )
                        &&& match s.appearance {
                            None => f.2[i] == p0,
                            Some((sec, a)) => {
                                let arec = record_at(payload, sec.offset as int, a.size as int, app as int);
                                &&& section_count_spec(payload, sec, a.size) matches Ok(m) && app < m
                                &&& record_id_spec(arec) == p0.id
                                &&& forall|k: int|
                                    0 <= k < app ==> record_id_spec(
                                        #[trigger] record_at(payload, sec.offset as int, a.size as int, k),
                                    ) != p0.id
                                &&& player_runs_in_range(schema_runs(a))
                                &&& player_texts_decode(arec, a.texts@)
                                &&& player_read_post(p0, f.2[i], arec, a)
                            },
                        }
                    };
                let m = section_count_spec(payload, sec, a.size)->Ok_0;
                lemma_section_fits(payload, sec, a.size);
                lemma_record_in_section(sec.offset as int, a.size as int, m as int, app as int);
            },
            None => {},
        }
    }
    lemma_players_written_same(payload, s, f.2, f.2.len());
    match s.appearance {
        Some((sec, a)) => {
            assert forall|i: int| 0 <= i < f.2.len() implies {
                &&& sec.offset + ((#[trigger] f.3[i]) + 1) * a.size <= payload.len()
                &&& player_written(
                    f.2[i],
                    record_at(payload, sec.offset as int, a.size as int, f.3[i] as int),
                    a,
                ) == record_at(payload, sec.offset as int, a.size as int, f.3[i] as int)
            } by {
                let p = f.2[i];
            }
        },
        None => {},
    }
    lemma_appearances_written_same(payload, s, f.2, f.3, f.2.len());
}

/// Every loaded team can be written, and writing the teams, rosters and
/// tactics back leaves the payload as it was.
proof fn lemma_teams_write_back(f: FileView)
    requires
        version_schema_wf(f.1),
        layout_round_trips(f),
        teams_loaded(f.0.3, f.1, f.4),
    ensures
        forall|i: int|
            0 <= i < f.4.len() ==> {
                &&& runs_writable(|g: crate::schema::TeamField| crate::model::team::team_field_value(#[trigger] f.4[i], g), schema_runs(f.1.team))
                &&& texts_writable(|x: crate::schema::TeamText| team_text_bytes(f.4[i], x), f.1.team.texts@)
                &&& runs_writable(|g: crate::schema::RosterField| crate::model::team::roster_field_value(f.4[i], g), schema_runs(f.1.roster))
                &&& runs_writable(|g: crate::schema::TacticsField| crate::model::tactics::tactics_value(f.4[i], g), tactics_runs_spec(f.1.tactic))
            },
        teams_written(f.0.3, f.1, f.4, f.4.len()) == f.0.3,
{
    let s = f.1;
    let payload = f.0.3;
    lemma_section_fits(payload, s.teams, s.team.size);
    lemma_section_fits(payload, s.rosters, s.roster.size);
    lemma_section_fits(payload, s.tactics, s.tactic.size);
    assert forall|i: int| 0 <= i < f.4.len() implies ({
        let t = #[trigger] f.4[i];
        let trec = record_at(payload, s.teams.offset as int, s.team.size as int, i);
        let rrec = record_at(payload, s.rosters.offset as int, s.roster.size as int, i);
        let xrec = record_at(payload, s.tactics.offset as int, s.tactic.size as int, i);
        &&& runs_writable(|g: crate::schema::TeamField| crate::model::team::team_field_value(t, g), schema_runs(s.team))
        &&& texts_writable(|x: crate::schema::TeamText| team_text_bytes(t, x), s.team.texts@)
        &&& runs_writable(|g: crate::schema::RosterField| crate::model::team::roster_field_value(t, g), schema_runs(s.roster))
        &&& runs_writable(|g: crate::schema::TacticsField| crate::model::tactics::tactics_value(t, g), tactics_runs_spec(s.tactic))
        &&& team_written(t, trec, s.team) == trec
        &&& write_runs_spec(
            rrec,
            run_writes(|g: crate::schema::RosterField| crate::model::team::roster_field_value(t, g), schema_runs(s.roster)),
        ) == rrec
        &&& write_runs_spec(
            xrec,
            run_writes(|g: crate::schema::TacticsField| crate::model::tactics::tactics_value(t, g), tactics_runs_spec(s.tactic)),
        ) == xrec
    }) by {
        lemma_team_records_unchanged(f, i);
    }
    lemma_teams_written_same(payload, s, f.4, f.4.len());
}

/// A loaded file can be written, and writing it back leaves its payload as
/// it was.
proof fn lemma_payload_write_back(f: FileView)
    requires
        version_schema_wf(f.1),
        layout_round_trips(f),
        players_loaded(f.0.3, f.1, f.2, f.3),
        teams_loaded(f.0.3, f.1, f.4),
    ensures
        file_writable(f),
        payload_written(f) == f.0.3,
{
    lemma_players_write_back(f);
    lemma_teams_write_back(f);
}

/// Some layout for `v` comes before every other one for `v`.
pub(crate) proof fn lemma_first_schema_exists(schemas: Seq<VersionSchema>, v: PesVersion, k: int)
    requires
        0 <= k < schemas.len(),
        schemas[k].version == v,
    ensures
        exists|i: int|
            0 <= i < schemas.len() && schemas[i].version == v && forall|j: int|
                0 <= j < i ==> (#[trigger] schemas[j]).version != v,
    decreases k,
{
    if exists|j: int| 0 <= j < k && (#[trigger] schemas[j]).version == v {
        let j = choose|j: int| 0 <= j < k && (#[trigger] schemas[j]).version == v;
        lemma_first_schema_exists(schemas, v, j);
    } else {
        assert(forall|j: int| 0 <= j < k ==> (#[trigger] schemas[j]).version != v);
    }
}

/// The layout chosen for a version is one for that version.
proof fn lemma_schema_index_facts(schemas: Seq<VersionSchema>, v: PesVersion)
    requires
        has_schema(schemas, v),
    ensures
        0 <= schema_index(schemas, v) < schemas.len(),
        schemas[schema_index(schemas, v)].version == v,
{
    let c = choose|c: int| 0 <= c < schemas.len() && (#[trigger] schemas[c]).version == v;
    lemma_first_schema_exists(schemas, v, c);
}

/// The layout chosen for a version is well formed.
pub(crate) proof fn lemma_chosen_schema_wf(schemas: Seq<VersionSchema>, v: PesVersion)
    requires
        schemas_cover(schemas),
    ensures
        0 <= schema_index(schemas, v) < schemas.len(),
        schemas[schema_index(schemas, v)].version == v,
        version_schema_wf(schemas[schema_index(schemas, v)]),
{
    assert(has_schema(schemas, v));
    lemma_schema_index_facts(schemas, v);
}

/// A container given back its own payload encrypts as before.
proof fn lemma_same_payload_same_bytes(c: ContainerView, payload: Seq<u8>, salt: Seq<u8>)
    requires
        payload == c.3,
    ensures
        to_bytes_spec(with_payload(c, payload), salt) == to_bytes_spec(c, salt),
{
    assert(with_payload(c, payload) == c);
}

/// A save opened from bytes and written back unedited gives its payload back
/// unchanged, so with the salt the bytes were written with it gives those
/// bytes again: every player and team can be written, and the container
/// encrypts to the same bytes. This holds when each record kind writes back
/// what it read (`layout_round_trips`).
#[verifier::spinoff_prover]
pub proof fn law_unedited_save_rewrites_byte_for_byte(
    f: FileView,
    bytes: Seq<u8>,
    keys: Seq<MasterKey>,
    schemas: Seq<VersionSchema>,
    salt: Seq<u8>,
)
    requires
        schemas_cover(schemas),
        file_loaded(f, bytes, keys, schemas),
        layout_round_trips(f),
        to_bytes_spec(f.0, salt) == Ok::<Seq<u8>, ContainerError>(bytes),
    ensures
        file_writable(f),
        payload_written(f) == f.0.3,
        to_bytes_spec(with_payload(f.0, payload_written(f)), salt) == Ok::<Seq<u8>, ContainerError>(bytes),
{
    lemma_chosen_schema_wf(schemas, view_version(f.0));
    lemma_payload_write_back(f);
    lemma_same_payload_same_bytes(f.0, payload_written(f), salt);
}
} // verus!
