//! `team.toml`: the full-fidelity team interchange format. A document holds
//! one team's `[team]`, `[tactics]` and `[players.NN]` data with every field
//! optional: an absent key is "leave untouched" on import, which is what makes
//! one-key patches and cross-version imports safe.
use vstd::prelude::*;

use vstd::utf8::{decode_utf8, encode_utf8};

use crate::codec::{push_char, CodecError};
use crate::file::{schema_for, schema_index, schemas_cover};
use crate::model::instruction::Instruction;
use crate::model::names::{display_name, shown_bytes};
use crate::model::playstyle::PlayStyle;
use crate::model::tactics::FormationSlot;
use crate::model::team::{KitSlot, TeamColor};
use crate::schema::{PlayerText, TextSpec, VersionSchema};
use crate::version::PesVersion;

/// The label tables the format writes where the record stores a number or a
/// bit (style-switch pairs, positions, instructions, ratings, styles, skills,
/// COM styles, foot/hand).
pub mod labels;

/// Applying a document's `[team]` and `[tactics]` tables to a team.
pub mod team;

/// The document text of the `[team]` and `[tactics]` tables.
pub mod emit;

/// The `[players.NN]` scalar-key table.
pub mod player_keys;

/// The document text of a `[players.NN]` table.
pub mod player;

/// What the `[team]` walk writes, field by field.
pub mod team_fields;

verus! {

/// A team document: the version it was written for (absent = the import
/// target's) plus three optional-bearing sections. `players` is keyed by
/// roster slot, not player id.
#[derive(Debug, Clone, PartialEq)]
pub struct TeamToml {
    /// The save version the document was written from; `None` = the target's.
    pub pes_version: Option<PesVersion>,
    /// The `[team]` table.
    pub team: TeamSection,
    /// The `[tactics]` table.
    pub tactics: TacticsSection,
    /// The `[players.NN]` tables by roster slot.
    pub players: std::collections::BTreeMap<u8, PlayerSection>,
}

/// `[team]`: identity, links and the version-gated colour/kit fields. `id` is
/// informational only and never applied.
#[derive(Debug, Clone, PartialEq, Default)]
pub struct TeamSection {
    /// The team id (informational; apply never writes it).
    pub id: Option<u32>,
    /// The team name.
    pub name: Option<String>,
    /// The three-letter short name.
    pub short_name: Option<String>,
    /// Manager id (PES 19+).
    pub manager_id: Option<u32>,
    /// Home stadium id (PES 19+).
    pub stadium_id: Option<u16>,
    /// First team colour (PES 18+).
    pub color_1: Option<TeamColor>,
    /// Second team colour (PES 18+).
    pub color_2: Option<TeamColor>,
    /// The ten kit slots (PES 17).
    pub kit_slots: Option<[KitSlot; 10]>,
    /// `[team.edit_flags]`.
    pub edit_flags: TeamEditFlagsSection,
}

/// `[team.edit_flags]`: the game's own "was edited" flags.
#[derive(Debug, Clone, Copy, PartialEq, Default)]
pub struct TeamEditFlagsSection {
    /// The team name was edited.
    pub name: Option<bool>,
    /// The short name was edited (PES 15 only).
    pub short_name: Option<bool>,
    /// The stadium was edited (PES 20+).
    pub stadium: Option<bool>,
    /// The strips were edited (PES 17 only).
    pub strip: Option<bool>,
}

/// `[tactics]`: the squad order, set pieces, auto flags and three presets.
#[derive(Debug, Clone, PartialEq, Default)]
pub struct TacticsSection {
    /// The eleven starters as roster slots.
    pub starting_eleven: Option<[u8; 11]>,
    /// The bench order as roster slots.
    pub bench_order: Option<[u8; 21]>,
    /// `[tactics.set_pieces]`.
    pub set_pieces: SetPiecesSection,
    /// Roster slots that join the attack.
    pub players_to_join_attack: Option<[u8; 3]>,
    /// `[tactics.auto]`.
    pub auto: AutoSection,
    /// `[tactics.preset_1]` to `[tactics.preset_3]`.
    pub presets: [PresetSection; 3],
}

/// `[tactics.set_pieces]`: takers as roster slots (255 = unset).
#[derive(Debug, Clone, Copy, PartialEq, Default)]
pub struct SetPiecesSection {
    /// Long free kick taker.
    pub free_kick_long: Option<u8>,
    /// Short free kick taker.
    pub free_kick_short: Option<u8>,
    /// Second free kick taker.
    pub free_kick_second: Option<u8>,
    /// Left corner taker.
    pub corner_left: Option<u8>,
    /// Right corner taker.
    pub corner_right: Option<u8>,
    /// Penalty taker.
    pub penalty: Option<u8>,
    /// Captain.
    pub captain: Option<u8>,
}

/// `[tactics.auto]`: the auto-tactics flags.
#[derive(Debug, Clone, Copy, PartialEq, Default)]
pub struct AutoSection {
    /// Auto substitution (the stored byte; 255 = auto, PES 16+).
    pub substitution: Option<u8>,
    /// Auto offside trap (PES 16+).
    pub offside_trap: Option<bool>,
    /// Auto preset change (PES 16+).
    pub preset_change: Option<bool>,
    /// Attack/defence levels (PES 17+).
    pub attack_defence_levels: Option<bool>,
}

/// `[tactics.preset_N]`: one preset's style, sliders, formations and
/// instructions.
#[derive(Debug, Clone, Copy, PartialEq, Default)]
pub struct PresetSection {
    /// `[tactics.preset_N.style]`.
    pub style: StyleSection,
    /// `[tactics.preset_N.sliders]`.
    pub sliders: SlidersSection,
    /// `[tactics.preset_N.formation_1]` to `formation_3` (kick-off, in
    /// possession, out of possession).
    pub formations: [Option<[FormationSlot; 11]>; 3],
    /// `[tactics.preset_N.instructions]` (PES 17+).
    pub instructions: Option<InstructionsSection>,
}

/// `[tactics.preset_N.style]`: the seven style switches plus fluid formation.
/// Each switch stores one bit; the label pair is `false` | `true`.
#[derive(Debug, Clone, Copy, PartialEq, Default)]
pub struct StyleSection {
    /// "counter_attack" | "possession".
    pub attacking_style: Option<bool>,
    /// "centre" | "wide".
    pub attacking_zone: Option<bool>,
    /// "long_pass" | "short_pass".
    pub buildup: Option<bool>,
    /// "maintain" | "flexible".
    pub positioning: Option<bool>,
    /// "frontline_pressure" | "all_out_defence".
    pub defensive_style: Option<bool>,
    /// "middle" | "wide".
    pub containment_area: Option<bool>,
    /// "aggressive" | "conservative".
    pub pressure: Option<bool>,
    /// Fluid formation on/off (PES 16+).
    pub fluid: Option<bool>,
}

/// `[tactics.preset_N.sliders]`.
#[derive(Debug, Clone, Copy, PartialEq, Default)]
pub struct SlidersSection {
    /// Support range, 1 to 10.
    pub support_range: Option<u8>,
    /// Defensive line, 1 to 10.
    pub defensive_line: Option<u8>,
    /// Compactness, 1 to 10.
    pub compactness: Option<u8>,
    /// Numbers in attack, 1 few to 3 many.
    pub numbers_in_attack: Option<u8>,
    /// Numbers in defence, 1 few to 3 many.
    pub numbers_in_defence: Option<u8>,
}

/// `[tactics.preset_N.instructions]`: two attack and two defence instructions.
#[derive(Debug, Clone, Copy, PartialEq, Default)]
pub struct InstructionsSection {
    /// `[tactics.preset_N.instructions]` `attack = [...]`.
    pub attack: [InstructionEntry; 2],
    /// `defence = [...]`.
    pub defence: [InstructionEntry; 2],
}

/// One `{ instruction, player }` pair of an instruction array.
#[derive(Debug, Clone, Copy, PartialEq, Default)]
pub struct InstructionEntry {
    /// The canonical instruction (a per-version table translates).
    pub instruction: Instruction,
    /// The roster slot it applies to.
    pub player: u8,
}

/// `[players.NN]`: one roster slot's player.
#[derive(Debug, Clone, PartialEq, Default)]
pub struct PlayerSection {
    /// Display name, colour codes included.
    pub name: Option<String>,
    /// Shirt name; absent = derived from `name` by the importer's caller.
    pub shirt_name: Option<String>,
    /// Squad number (from the roster record).
    pub number: Option<u16>,
    /// Nationality id.
    pub nationality: Option<u16>,
    /// Age.
    pub age: Option<u8>,
    /// Boots model id.
    pub boots_id: Option<u32>,
    /// Gloves model id.
    pub gloves_id: Option<u32>,
    /// Base-copy player id.
    pub base_copy_id: Option<u32>,
    /// The ingame-face run as a hex string.
    pub ingame_face: Option<Vec<u8>>,
    /// `[players.NN.stats]`.
    pub stats: StatsSection,
    /// `[players.NN.positions]`.
    pub positions: PositionsSection,
    /// `[players.NN.skills]`.
    pub skills: SkillsSection,
    /// `[players.NN.edit_flags]`.
    pub edit_flags: EditFlagsSection,
}

/// `[players.NN.stats]`: the ability numbers.
#[derive(Debug, Clone, Copy, PartialEq, Default)]
pub struct StatsSection {
    /// Attacking Prowess (Offensive Awareness).
    pub attacking_prowess: Option<u8>,
    /// Ball Control.
    pub ball_control: Option<u8>,
    /// Dribbling.
    pub dribbling: Option<u8>,
    /// Tight Possession (PES 20+).
    pub tight_possession: Option<u8>,
    /// Low Pass.
    pub low_pass: Option<u8>,
    /// Lofted Pass.
    pub lofted_pass: Option<u8>,
    /// Finishing.
    pub finishing: Option<u8>,
    /// Header (Heading).
    pub heading: Option<u8>,
    /// Place Kicking.
    pub place_kicking: Option<u8>,
    /// Swerve (Curl).
    pub swerve: Option<u8>,
    /// Defensive Prowess (Defensive Awareness).
    pub defensive_prowess: Option<u8>,
    /// Ball Winning (Tackling).
    pub ball_winning: Option<u8>,
    /// Aggression (PES 20+).
    pub aggression: Option<u8>,
    /// Kicking Power.
    pub kicking_power: Option<u8>,
    /// Speed.
    pub speed: Option<u8>,
    /// Explosive Power (Acceleration).
    pub explosive_power: Option<u8>,
    /// Body Control.
    pub body_control: Option<u8>,
    /// Physical Contact (PES 17+).
    pub physical_contact: Option<u8>,
    /// Jump.
    pub jump: Option<u8>,
    /// Stamina.
    pub stamina: Option<u8>,
    /// Goalkeeping (GK Awareness).
    pub goalkeeping: Option<u8>,
    /// Catching (PES 15; folded into the GK set later).
    pub catching: Option<u8>,
    /// Clearing (PES 16+).
    pub clearing: Option<u8>,
    /// Reflexes (PES 16+).
    pub reflexes: Option<u8>,
    /// Coverage (PES 16+).
    pub coverage: Option<u8>,
    /// Weak Foot Usage.
    pub weak_foot_usage: Option<u8>,
    /// Weak Foot Accuracy.
    pub weak_foot_accuracy: Option<u8>,
    /// Form (Condition), 1 to 8.
    pub form: Option<u8>,
    /// Injury Resistance.
    pub injury_resistance: Option<u8>,
    /// Star rating (PES 19+).
    pub star: Option<u8>,
    /// Playing attitude (PES 20+).
    pub playing_attitude: Option<u8>,
}

/// `[players.NN.positions]`.
#[derive(Debug, Clone, Copy, PartialEq, Default)]
pub struct PositionsSection {
    /// Registered position (GK 0 to CF 12).
    pub registered: Option<u8>,
    /// Playable position ratings, CF first.
    pub playable: Option<[u8; 13]>,
    /// Playing style (a canonical `PlayStyle` label in the document).
    pub playing_style: Option<PlayStyle>,
    /// Stronger foot (0 right, 1 left).
    pub stronger_foot: Option<u8>,
    /// Stronger hand (0 right, 1 left; PES 20+).
    pub stronger_hand: Option<u8>,
}

/// `[players.NN.skills]`.
#[derive(Debug, Clone, Copy, PartialEq, Default)]
pub struct SkillsSection {
    /// Player skills by canonical slot (0 Scissors Feint to 40 Through Passing).
    pub skills: Option<[bool; 41]>,
    /// COM playing styles (0 Trickster to 6 Long Ranger).
    pub com_styles: Option<[bool; 7]>,
}

/// `[players.NN.edit_flags]`: the game's own per-section flags.
#[derive(Debug, Clone, Copy, PartialEq, Default)]
pub struct EditFlagsSection {
    /// The player was created or edited.
    pub player: Option<bool>,
    /// The basic settings were edited.
    pub basic_settings: Option<bool>,
    /// The registered position was edited.
    pub registered_position: Option<bool>,
    /// The playable positions were edited.
    pub playable_positions: Option<bool>,
    /// The abilities were edited.
    pub abilities: Option<bool>,
    /// The skills were edited.
    pub skills: Option<bool>,
    /// The playing style was edited.
    pub playing_style: Option<bool>,
    /// The COM playing styles were edited.
    pub com_styles: Option<bool>,
    /// The motions were edited.
    pub motion: Option<bool>,
    /// The player is a base copy.
    pub base_copy: Option<bool>,
    /// The face was edited.
    pub face: Option<bool>,
    /// The hairstyle was edited.
    pub hair: Option<bool>,
    /// The physique was edited.
    pub physique: Option<bool>,
    /// The strip style was edited.
    pub strip: Option<bool>,
}

/// A field the import skipped, and why.
#[derive(Debug, Clone, PartialEq)]
pub enum ImportNote {
    /// `path` exists in the document's version but not the target's.
    NotInThisVersion {
        /// The dotted key path ("team.manager_id").
        path: String,
    },
    /// `path`'s value has no stored form in the target version (an instruction
    /// the target lacks): `Off` was written in its place.
    NotEncodable {
        /// The dotted key path.
        path: String,
        /// The value's label.
        label: String,
    },
    /// A face type above the target's cap or skin 7 into a no-custom-skin
    /// version; capped to `to`.
    Capped {
        /// The dotted key path.
        path: String,
        /// The value as written.
        from: u8,
        /// The value written in its place.
        to: u8,
    },
    /// A `[players.NN]` whose target roster slot is empty; skipped.
    EmptySlot {
        /// The roster slot (1-based, as the key spells it).
        slot: u8,
    },
}

/// What an import note says, its texts taken by their views.
pub enum NoteView {
    NotInThisVersion { path: Seq<char> },
    NotEncodable { path: Seq<char>, label: Seq<char> },
    Capped { path: Seq<char>, from: u8, to: u8 },
    EmptySlot { slot: u8 },
}

impl View for ImportNote {
    type V = NoteView;

    open spec fn view(&self) -> NoteView {
        match self {
            ImportNote::NotInThisVersion { path } => NoteView::NotInThisVersion { path: path@ },
            ImportNote::NotEncodable { path, label } => NoteView::NotEncodable {
                path: path@,
                label: label@,
            },
            ImportNote::Capped { path, from, to } => NoteView::Capped {
                path: path@,
                from: *from,
                to: *to,
            },
            ImportNote::EmptySlot { slot } => NoteView::EmptySlot { slot: *slot },
        }
    }
}

/// The notes of a list, each by its view.
pub open spec fn note_views(notes: Seq<ImportNote>) -> Seq<NoteView> {
    notes.map_values(|n: ImportNote| n@)
}

/// What parsing, emitting or applying a `team.toml` can fail with.
#[derive(Debug)]
pub enum TeamTomlError {
    /// The document is not valid TOML.
    Toml(String),
    /// A key the format does not know.
    UnknownKey {
        /// The dotted key path.
        key: String,
    },
    /// A key a present table requires is absent.
    MissingKey {
        /// The dotted key path.
        key: String,
    },
    /// A key holds the wrong kind of TOML value.
    WrongType {
        /// The dotted key path.
        key: String,
        /// What the key takes.
        expected: &'static str,
    },
    /// An integer outside its range.
    OutOfRange {
        /// The dotted key path.
        key: String,
        /// The offending value.
        value: i64,
        /// The allowed range as text ("1 to 10").
        range: String,
    },
    /// A string that is not one of the key's labels.
    UnknownLabel {
        /// The dotted key path.
        key: String,
        /// The offending label.
        label: String,
        /// The allowed labels, quoted.
        allowed: String,
    },
    /// The document's own version stores the field but the target's does not.
    NotInThisVersion {
        /// The dotted key path.
        path: String,
    },
    /// A codec failure (a stored instruction value the version does not list).
    Codec(CodecError),
    /// The roster names a player id `players` does not hold.
    PlayerMissing {
        /// The missing player id.
        id: u32,
    },
    /// A `[players.NN]` past the target team's roster width.
    NoSuchSlot {
        /// The roster slot (1-based, as the key spells it).
        slot: u8,
    },
}

/// The uppercase mapping of `s`, as std's `str::to_uppercase` applies
/// Unicode's case tables.
pub uninterp spec fn uppercase(s: Seq<char>) -> Seq<char>;

/// `str::to_uppercase` of std: the uppercase mapping of `s`, a function of
/// `s` alone.
#[verifier::external_body]
fn to_uppercase(s: &str) -> (r: String)
    ensures
        r@ == uppercase(s@),
{
    s.to_uppercase()
}

/// The index of the first shirt-name text field at or after `k`.
pub open spec fn shirt_text_from(texts: Seq<TextSpec<PlayerText>>, k: int) -> Option<int>
    decreases texts.len() - k,
{
    if k < 0 || k >= texts.len() {
        None
    } else if texts[k].text == PlayerText::ShirtName {
        Some(k)
    } else {
        shirt_text_from(texts, k + 1)
    }
}

/// The text fields of `v`'s player record.
#[verifier::opaque]
pub open spec fn player_texts_of(schemas: Seq<VersionSchema>, v: PesVersion) -> Seq<TextSpec<PlayerText>> {
    schemas[schema_index(schemas, v)].player.texts@
}

/// `v`'s player record stores a shirt name of room for at least its
/// terminator.
pub open spec fn stores_shirt_name(schemas: Seq<VersionSchema>, v: PesVersion) -> bool {
    let texts = player_texts_of(schemas, v);
    shirt_text_from(texts, 0) matches Some(k) && texts[k].len >= 1
}

/// How many chars a shirt name holds on `v`: its field's length minus the
/// terminator.
pub open spec fn shirt_room(schemas: Seq<VersionSchema>, v: PesVersion) -> int {
    let texts = player_texts_of(schemas, v);
    texts[shirt_text_from(texts, 0)->Some_0].len - 1
}

/// The shirt name `name` gives on `v`: colour codes stripped, upper-cased,
/// cut by chars to the shirt-name field's length minus its terminator.
pub open spec fn shirt_name_spec(name: Seq<char>, schemas: Seq<VersionSchema>, v: PesVersion) -> Seq<char> {
    let len = shirt_room(schemas, v);
    let upper = uppercase(decode_utf8(shown_bytes(encode_utf8(name), 0)));
    upper.take(if len < upper.len() { len } else { upper.len() as int })
}

/// The room for a shirt name on `version`.
fn shirt_room_of(version: PesVersion, schemas: &'static [VersionSchema]) -> (take: usize)
    requires
        schemas_cover(schemas@),
        stores_shirt_name(schemas@, version),
    ensures
        take == shirt_room(schemas@, version),
{
    let schema = schema_for(schemas, version);
    proof {
        reveal(player_texts_of);
    }
    let texts = &schema.player.texts;
    let mut k: usize = 0;
    while k < texts.len() && texts[k].text != PlayerText::ShirtName
        invariant
            k <= texts@.len(),
            shirt_text_from(texts@, 0) == shirt_text_from(texts@, k as int),
        decreases texts@.len() - k,
    {
        k = k + 1;
    }
    (texts[k].len - 1) as usize
}

/// The shirt name a display name produces: colour codes stripped,
/// upper-cased, cut to the version's shirt-name field minus its terminator,
/// by chars.
pub fn shirt_name_from(name: &str, version: PesVersion, schemas: &'static [VersionSchema]) -> (r: String)
    requires
        schemas_cover(schemas@),
        stores_shirt_name(schemas@, version),
    ensures
        r@ == shirt_name_spec(name@, schemas@, version),
{
    let take = shirt_room_of(version, schemas);
    let shown = display_name(name);
    let upper = to_uppercase(shown.as_str());
    let mut out = String::new();
    let ghost chars = upper@;
    let ghost n: int = if take < chars.len() { take as int } else { chars.len() as int };
    let mut i: usize = 0;
    for c in it: upper.as_str().chars()
        invariant
            it.seq() == chars,
            i == (if it.index() < take { it.index() as int } else { take as int }),
            out@ == chars.take(if it.index() < n { it.index() as int } else { n }),
            n <= chars.len(),
            n == (if take < chars.len() { take as int } else { chars.len() as int }),
    {
        if i < take {
            assert(c == chars[it.index() as int]);
            push_char(&mut out, c);
            assert(out@ =~= chars.take(it.index() + 1));
            i = i + 1;
        }
    }
    out
}

} // verus!
