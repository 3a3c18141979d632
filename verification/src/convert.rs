//! Cross-version player conversion: rewrites a player read from one
//! version's save from a player read from another's. Everything that
//! translates one-to-one is copied through; what does not is dropped, cut or
//! reset, and each such case is reported as a `ConvertNote`, never silently.
use vstd::prelude::*;

use crate::codec::bits::lemma_run_value_facts;
use crate::codec::{lemma_last_text_index_facts, lemma_last_text_index_step, last_text_index, push_char, runs, CodecError};
use crate::model::ingame_face::{face_field_spec, IngameFace, IngameFaceField};
use crate::model::player::{PlayerAppearance, PlayerEntry, PlayerMotion, PlayerPositions, PlayerStats};
use crate::model::playstyle::PlayStyle;
use crate::ops::compare::{runs_contain, runs_have};
use crate::ops::fpc::{covers_skin, face_skin, lemma_skin_bits, skin_set};
use crate::schema::{arrays_fit, schema_runs, PlayerField, PlayerText, RecordSchema, Run, TextSpec};
use crate::version::PesVersion;
use vstd::utf8::{encode_scalar, encode_utf8};

verus! {

/// What could not be carried one-to-one; the conversion still succeeded.
#[derive(Debug, Clone, PartialEq, Eq)]
pub enum ConvertNote {
    /// A face type above the target's cap was reset to 0 (the converters'
    /// default; not clamped).
    FaceTypeReset {
        /// The capped field.
        field: IngameFaceField,
        /// The value the source carried.
        value: u8,
    },
    /// Skin colour 7 (custom skin) reset to 1: `from` or `to` has no custom
    /// skin.
    CustomSkinReset,
    /// The playing style has no value in `to`; set to `None` (0).
    PlayingStyleDropped {
        /// The style that does not translate.
        style: PlayStyle,
    },
    /// A set skill `to` has no bit for was cleared.
    SkillDropped {
        /// The cleared skill's canonical index.
        index: u8,
    },
    /// The name or shirt name was cut to the target field's length (at a
    /// char boundary).
    TextTruncated {
        /// The text that was cut.
        text: PlayerText,
    },
    /// The source run is longer than the target's; its last `bytes` bytes
    /// were dropped (50 → 46).
    FaceRunTruncated {
        /// The number of source bytes that did not fit.
        bytes: usize,
    },
}

/// A conversion that could not run.
#[derive(Debug, Clone, PartialEq, Eq)]
pub enum ConvertError {
    /// The source or the target has no ingame-face run (an entry never read
    /// from a record).
    NoIngameFaceRun,
    /// The source's stored playing style is not a value of `from`'s list, or
    /// an ingame-face field could not be read or written.
    Codec(CodecError),
}

/// What a version decides of a converted player.
#[derive(Debug, Clone)]
pub struct VersionRules {
    /// The version.
    pub version: PesVersion,
    /// Its playing-style list: the style each stored index names, `None`
    /// for an index that names none.
    pub play_styles: Vec<Option<PlayStyle>>,
    /// Whether the version has a custom skin (7).
    pub custom_skin: bool,
}

/// The number of leading chars of `s` whose UTF-8 bytes fit `max` bytes.
pub open spec fn cut_count(s: Seq<char>, max: int) -> nat
    decreases s.len(),
{
    if s.len() == 0 {
        0
    } else if encode_scalar(s[0] as u32).len() <= max {
        1 + cut_count(s.drop_first(), max - encode_scalar(s[0] as u32).len())
    } else {
        0
    }
}

/// `s` cut to at most `max` bytes at a char boundary.
pub open spec fn cut_spec(s: Seq<char>, max: int) -> Seq<char> {
    s.take(cut_count(s, max) as int)
}

/// The UTF-8 width of a char.
fn utf8_width(c: char) -> (w: usize)
    ensures
        w == encode_scalar(c as u32).len(),
        1 <= w <= 4,
{
    let v = c as u32;
    if v <= 0x7F {
        1
    } else if v <= 0x7FF {
        2
    } else if v <= 0xFFFF {
        3
    } else {
        4
    }
}

/// Taking chars from `s[i..]` with `budget` bytes left.
proof fn lemma_cut_step(s: Seq<char>, i: int, budget: int)
    requires
        0 <= i < s.len(),
    ensures
        cut_count(s.skip(i), budget) == if encode_scalar(s[i] as u32).len() <= budget {
            1 + cut_count(s.skip(i + 1), budget - encode_scalar(s[i] as u32).len())
        } else {
            0
        },
{
    assert(s.skip(i).drop_first() =~= s.skip(i + 1));
    assert(s.skip(i)[0] == s[i]);
}

/// `s` cut to at most `max` bytes at a char boundary.
fn cut(s: &str, max: usize) -> (r: String)
    ensures
        r@ == cut_spec(s@, max as int),
{
    let n = s.unicode_len();
    let mut out = String::new();
    let mut i: usize = 0;
    let mut budget: usize = max;
    let mut full = false;
    proof {
        assert(s@.skip(0) =~= s@);
    }
    while i < n && !full
        invariant
            n == s@.len(),
            i <= n,
            budget <= max,
            out@ == s@.take(i as int),
            cut_count(s@, max as int) == i + cut_count(s@.skip(i as int), budget as int),
            full ==> cut_count(s@.skip(i as int), budget as int) == 0,
        decreases n - i + (if full { 0int } else { 1int }),
    {
        let c = s.get_char(i);
        let w = utf8_width(c);
        proof {
            lemma_cut_step(s@, i as int, budget as int);
        }
        if w > budget {
            full = true;
        } else {
            push_char(&mut out, c);
            assert(out@ =~= s@.take(i + 1));
            budget = budget - w;
            i = i + 1;
        }
    }
    proof {
        if !full {
            assert(s@.skip(i as int).len() == 0);
        }
    }
    out
}

/// The first `n + 1` chars encode as the first char's bytes, then the rest's
/// first `n`.
proof fn lemma_encode_take(s: Seq<char>, n: int)
    requires
        0 <= n < s.len(),
    ensures
        encode_utf8(s.take(n + 1)) == encode_scalar(s[0] as u32) + encode_utf8(s.drop_first().take(n)),
{
    assert(s.take(n + 1)[0] == s[0]);
    assert(s.take(n + 1).drop_first() =~= s.drop_first().take(n));
}

/// A cut text is the longest prefix whose UTF-8 bytes fit: its bytes are at
/// most `max`, and where a char was cut off, one more char would not fit.
pub proof fn law_cut_is_the_longest_prefix_that_fits(s: Seq<char>, max: int)
    requires
        max >= 0,
    ensures
        encode_utf8(cut_spec(s, max)).len() <= max,
        cut_count(s, max) < s.len() ==> encode_utf8(s.take(cut_count(s, max) as int + 1)).len() > max,
    decreases s.len(),
{
    let n = cut_count(s, max) as int;
    if s.len() == 0 {
        assert(cut_spec(s, max) =~= Seq::<char>::empty());
    } else {
        let w = encode_scalar(s[0] as u32).len() as int;
        if w <= max {
            let rest = s.drop_first();
            law_cut_is_the_longest_prefix_that_fits(rest, max - w);
            lemma_cut_count_bound(rest, max - w);
            lemma_encode_take(s, n - 1);
            assert(cut_spec(s, max) =~= s.take(n));
            assert(cut_spec(rest, max - w) =~= rest.take(n - 1));
            if n < s.len() {
                lemma_encode_take(s, n);
            }
        } else {
            assert(cut_spec(s, max) =~= Seq::<char>::empty());
            lemma_encode_take(s, 0);
            assert(s.drop_first().take(0) =~= Seq::<char>::empty());
        }
    }
}

/// The gated value after a carry: the source's where both sides have one,
/// else the target's.
pub open spec fn carried(target: Option<u8>, source: Option<u8>) -> Option<u8> {
    if target is Some && source is Some {
        source
    } else {
        target
    }
}

fn carry(target: Option<u8>, source: Option<u8>) -> (r: Option<u8>)
    ensures
        r == carried(target, source),
{
    match (target, source) {
        (Some(_), Some(v)) => Some(v),
        _ => target,
    }
}

/// The style a stored index names in a version's list.
pub open spec fn decoded_style(list: Seq<Option<PlayStyle>>, index: u8) -> Option<PlayStyle> {
    if (index as int) < list.len() {
        list[index as int]
    } else {
        None
    }
}

/// The first index of `style` in a version's list.
pub open spec fn style_index(list: Seq<Option<PlayStyle>>, style: PlayStyle) -> Option<int>
    decreases list.len(),
{
    if list.len() == 0 {
        None
    } else {
        match style_index(list.drop_last(), style) {
            Some(i) => Some(i),
            None => if list.last() == Some(style) {
                Some(list.len() - 1)
            } else {
                None
            },
        }
    }
}

/// The stored index of `style` in the target's list, 0 where it has none.
pub open spec fn encoded_style(list: Seq<Option<PlayStyle>>, style: PlayStyle) -> u8 {
    match style_index(list, style) {
        Some(i) => i as u8,
        None => 0,
    }
}

/// The first index of `style` in `list`.
fn find_style(list: &Vec<Option<PlayStyle>>, style: PlayStyle) -> (r: Option<usize>)
    ensures
        r matches Some(i) ==> style_index(list@, style) == Some(i as int),
        r is None ==> style_index(list@, style) is None,
{
    let mut i: usize = 0;
    while i < list.len()
        invariant
            i <= list@.len(),
            style_index(list@.take(i as int), style) is None,
        decreases list@.len() - i,
    {
        assert(list@.take(i + 1).drop_last() =~= list@.take(i as int));
        if list[i] == Some(style) {
            proof {
                lemma_style_index_prefix(list@, i + 1, style);
            }
            return Some(i);
        }
        i = i + 1;
    }
    assert(list@.take(list@.len() as int) =~= list@);
    None
}

/// The first index found in a prefix is the first index of the whole list.
proof fn lemma_style_index_prefix(list: Seq<Option<PlayStyle>>, n: int, style: PlayStyle)
    requires
        0 <= n <= list.len(),
        style_index(list.take(n), style) is Some,
    ensures
        style_index(list, style) == style_index(list.take(n), style),
    decreases list.len(),
{
    if n < list.len() {
        assert(list.drop_last().take(n) =~= list.take(n));
        lemma_style_index_prefix(list.drop_last(), n, style);
    } else {
        assert(list.take(n) =~= list);
    }
}

/// The text a conversion cuts for `text`.
pub open spec fn source_text(source: PlayerEntry, text: PlayerText) -> Seq<char> {
    match text {
        PlayerText::Name => source.name@,
        PlayerText::ShirtName => source.shirt_name@,
    }
}

/// The text after the conversion: the source's, cut to the last field of
/// that text, or the target's where the target layout has no such field.
pub open spec fn converted_text(
    source: PlayerEntry,
    before: Seq<char>,
    texts: Seq<TextSpec<PlayerText>>,
    text: PlayerText,
) -> Seq<char> {
    match last_text_index(texts, text) {
        Some(k) => cut_spec(source_text(source, text), texts[k].len - 1),
        None => before,
    }
}

/// One `TextTruncated` note per text field whose source text was cut, in
/// field order.
pub open spec fn text_notes(source: PlayerEntry, texts: Seq<TextSpec<PlayerText>>) -> Seq<ConvertNote>
    decreases texts.len(),
{
    if texts.len() == 0 {
        Seq::empty()
    } else {
        let t = texts.last();
        let s = source_text(source, t.text);
        text_notes(source, texts.drop_last()) + if cut_count(s, t.len - 1) < s.len() {
            seq![ConvertNote::TextTruncated { text: t.text }]
        } else {
            Seq::<ConvertNote>::empty()
        }
    }
}

/// The skills after the conversion: the source's, each one the target
/// layout has no bit for cleared.
pub open spec fn converted_skills(source: Seq<bool>, runs: Seq<Run<PlayerField>>) -> Seq<bool> {
    Seq::new(source.len(), |i: int| source[i] && runs_have(runs, PlayerField::Skill(i as u8)))
}

/// One `SkillDropped` note per set skill among the first `n` that the target
/// layout has no bit for, in index order.
pub open spec fn skill_notes(source: Seq<bool>, runs: Seq<Run<PlayerField>>, n: nat) -> Seq<ConvertNote>
    decreases n,
{
    if n == 0 {
        Seq::empty()
    } else {
        let i = n - 1;
        skill_notes(source, runs, (n - 1) as nat) + if source[i] && !runs_have(runs, PlayerField::Skill(i as u8)) {
            seq![ConvertNote::SkillDropped { index: i as u8 }]
        } else {
            Seq::<ConvertNote>::empty()
        }
    }
}

/// The target's run after the source's bytes are copied over its prefix.
pub open spec fn copied_face(source: Seq<u8>, target: Seq<u8>) -> Seq<u8> {
    let n = if target.len() < source.len() { target.len() } else { source.len() };
    source.take(n as int) + target.skip(n as int)
}

/// The custom skin does not carry: one of the two versions has none.
pub open spec fn skin_reset(from: VersionRules, to: VersionRules, face: Seq<u8>) -> bool {
    face_skin(face) == 7 && !(from.custom_skin && to.custom_skin)
}

/// `after` is the conversion of `source` onto `before`: the target keeps its
/// id; the texts are the source's cut to the target layout; basics, the
/// plain stats, positions, COM styles, motions, edit flags and the strip and
/// physique fields are the source's; a gated value is the source's where
/// both sides have one; the playing style is re-encoded for the target (0
/// where it has none); skills the target layout lacks are cleared; the
/// source's run is copied over the target's prefix, a custom skin reset to 1
/// where it does not carry; gloves, skin and iris fields stay the target's.
pub open spec fn converted(
    source: PlayerEntry,
    from: VersionRules,
    before: PlayerEntry,
    to: VersionRules,
    schema: RecordSchema<PlayerField, PlayerText>,
    after: PlayerEntry,
) -> bool {
    let style = decoded_style(from.play_styles@, source.positions.playing_style)->Some_0;
    let face = copied_face(source.appearance.ingame_face@, before.appearance.ingame_face@);
    &&& after.id == before.id
    &&& after.name@ == converted_text(source, before.name@, schema.texts@, PlayerText::Name)
    &&& after.shirt_name@ == converted_text(source, before.shirt_name@, schema.texts@, PlayerText::ShirtName)
    &&& after.basic == source.basic
    &&& after.stats == (PlayerStats {
        physical_contact: carried(before.stats.physical_contact, source.stats.physical_contact),
        catching: carried(before.stats.catching, source.stats.catching),
        clearing: carried(before.stats.clearing, source.stats.clearing),
        reflexes: carried(before.stats.reflexes, source.stats.reflexes),
        coverage: carried(before.stats.coverage, source.stats.coverage),
        star: carried(before.stats.star, source.stats.star),
        tight_possession: carried(before.stats.tight_possession, source.stats.tight_possession),
        aggression: carried(before.stats.aggression, source.stats.aggression),
        playing_attitude: carried(before.stats.playing_attitude, source.stats.playing_attitude),
        ..source.stats
    })
    &&& after.positions == (PlayerPositions {
        playing_style: encoded_style(to.play_styles@, style),
        stronger_hand: carried(before.positions.stronger_hand, source.positions.stronger_hand),
        ..source.positions
    })
    &&& after.skills.com_styles == source.skills.com_styles
    &&& after.skills.skills@ == converted_skills(source.skills.skills@, schema_runs(schema))
    &&& after.motion == (PlayerMotion {
        dribbling: carried(before.motion.dribbling, source.motion.dribbling),
        ..source.motion
    })
    &&& after.edit_flags == source.edit_flags
    &&& after.appearance == (PlayerAppearance {
        player_gloves: before.appearance.player_gloves,
        player_gloves_color: before.appearance.player_gloves_color,
        skin_color: before.appearance.skin_color,
        iris_color: before.appearance.iris_color,
        ingame_face: after.appearance.ingame_face,
        ..source.appearance
    })
    &&& if skin_reset(from, to, face) {
        skin_set(face, after.appearance.ingame_face@, 1)
    } else {
        after.appearance.ingame_face@ == face
    }
}

/// The notes of a conversion, in the order the conversion meets them: cut
/// texts, a dropped playing style, dropped skills, a truncated run, a reset
/// custom skin.
pub open spec fn convert_notes(
    source: PlayerEntry,
    from: VersionRules,
    before: PlayerEntry,
    to: VersionRules,
    schema: RecordSchema<PlayerField, PlayerText>,
) -> Seq<ConvertNote> {
    let style = decoded_style(from.play_styles@, source.positions.playing_style)->Some_0;
    let fs = source.appearance.ingame_face@;
    let ft = before.appearance.ingame_face@;
    let face = copied_face(fs, ft);
    let style_note: Seq<ConvertNote> = if style_index(to.play_styles@, style) is None {
        seq![ConvertNote::PlayingStyleDropped { style }]
    } else {
        Seq::empty()
    };
    let run_note: Seq<ConvertNote> = if fs.len() > ft.len() {
        seq![ConvertNote::FaceRunTruncated { bytes: (fs.len() - ft.len()) as usize }]
    } else {
        Seq::empty()
    };
    let skin_note: Seq<ConvertNote> = if skin_reset(from, to, face) {
        seq![ConvertNote::CustomSkinReset]
    } else {
        Seq::empty()
    };
    text_notes(source, schema.texts@) + style_note + skill_notes(
        source.skills.skills@,
        schema_runs(schema),
        41,
    ) + run_note + skin_note
}

/// One more text field applied.
proof fn lemma_text_step(
    source: PlayerEntry,
    before: Seq<char>,
    texts: Seq<TextSpec<PlayerText>>,
    k: int,
    t: PlayerText,
)
    requires
        0 <= k < texts.len(),
    ensures
        converted_text(source, before, texts.take(k + 1), t) == if texts[k].text == t {
            cut_spec(source_text(source, t), texts[k].len - 1)
        } else {
            converted_text(source, before, texts.take(k), t)
        },
        text_notes(source, texts.take(k + 1)) == text_notes(source, texts.take(k)) + if cut_count(
            source_text(source, texts[k].text),
            texts[k].len - 1,
        ) < source_text(source, texts[k].text).len() {
            seq![ConvertNote::TextTruncated { text: texts[k].text }]
        } else {
            Seq::<ConvertNote>::empty()
        },
{
    lemma_last_text_index_step(texts, k, t);
    lemma_last_text_index_facts(texts.take(k), t);
    assert(texts.take(k + 1).drop_last() =~= texts.take(k));
}

/// At most `s.len()` chars are taken.
proof fn lemma_cut_count_bound(s: Seq<char>, max: int)
    ensures
        cut_count(s, max) <= s.len(),
    decreases s.len(),
{
    if s.len() > 0 && encode_scalar(s[0] as u32).len() <= max {
        lemma_cut_count_bound(s.drop_first(), max - encode_scalar(s[0] as u32).len());
    }
}

/// Rewrites `target`, a player read from a `to`-version save, from `source`,
/// read from a `from`-version save, under the target's player layout
/// `schema`. Everything that translates one-to-one is copied through; what
/// does not is dropped, cut or reset, and each such case is reported as a
/// `ConvertNote`. All-or-nothing: on `Err` the target is unchanged. The
/// target keeps its own id (it is the slot being filled).
pub fn convert_player(
    source: &PlayerEntry,
    from: &VersionRules,
    target: &mut PlayerEntry,
    to: &VersionRules,
    schema: &RecordSchema<PlayerField, PlayerText>,
) -> (r: Result<Vec<ConvertNote>, ConvertError>)
    requires
        arrays_fit(schema.arrays@),
        forall|k: int| 0 <= k < schema.texts@.len() ==> #[trigger] schema.texts@[k].len >= 1,
        to.play_styles@.len() <= 256,
    ensures
        ({
            let fs = source.appearance.ingame_face@;
            let ft = old(target).appearance.ingame_face@;
            let v = source.positions.playing_style;
            &&& (fs.len() == 0 || ft.len() == 0) ==> r == Err::<Vec<ConvertNote>, ConvertError>(
                ConvertError::NoIngameFaceRun,
            ) && *final(target) == *old(target)
            &&& fs.len() > 0 && ft.len() > 0 && decoded_style(from.play_styles@, v) is None ==> r == Err::<
                Vec<ConvertNote>,
                ConvertError,
            >(ConvertError::Codec(CodecError::UnknownPlayingStyle { version: from.version, value: v }))
                && *final(target) == *old(target)
            &&& fs.len() > 0 && ft.len() > 0 && decoded_style(from.play_styles@, v) is Some && !covers_skin(
                ft.len(),
            ) ==> (r matches Err(ConvertError::Codec(e)) && e is NoIngameFaceRun) && *final(target) == *old(
                target,
            )
            &&& fs.len() > 0 && ft.len() > 0 && decoded_style(from.play_styles@, v) is Some && covers_skin(
                ft.len(),
            ) ==> (r matches Ok(notes) && converted(*source, *from, *old(target), *to, *schema, *final(target))
                && notes@ == convert_notes(*source, *from, *old(target), *to, *schema))
        }),
{
    if source.appearance.ingame_face.bytes().len() == 0 || target.appearance.ingame_face.bytes().len() == 0 {
        return Err(ConvertError::NoIngameFaceRun);
    }
    let v = source.positions.playing_style;
    let style = if (v as usize) < from.play_styles.len() {
        match from.play_styles[v as usize] {
            Some(s) => s,
            None => {
                return Err(ConvertError::Codec(CodecError::UnknownPlayingStyle { version: from.version, value: v }));
            },
        }
    } else {
        return Err(ConvertError::Codec(CodecError::UnknownPlayingStyle { version: from.version, value: v }));
    };
    match target.appearance.ingame_face.get(IngameFaceField::SkinColor) {
        Ok(_) => {},
        Err(e) => {
            return Err(ConvertError::Codec(e));
        },
    }
    let ghost before = *target;
    let mut notes: Vec<ConvertNote> = Vec::new();
    let mut t: usize = 0;
    while t < schema.texts.len()
        invariant
            t <= schema.texts@.len(),
            forall|k: int| 0 <= k < schema.texts@.len() ==> #[trigger] schema.texts@[k].len >= 1,
            notes@ == text_notes(*source, schema.texts@.take(t as int)),
            target.name@ == converted_text(*source, before.name@, schema.texts@.take(t as int), PlayerText::Name),
            target.shirt_name@ == converted_text(
                *source,
                before.shirt_name@,
                schema.texts@.take(t as int),
                PlayerText::ShirtName,
            ),
            *target == (PlayerEntry { name: target.name, shirt_name: target.shirt_name, ..before }),
        decreases schema.texts@.len() - t,
    {
        let spec = schema.texts[t];
        proof {
            assert(schema.texts@[t as int] == spec);
            lemma_text_step(*source, before.name@, schema.texts@, t as int, PlayerText::Name);
            lemma_text_step(*source, before.shirt_name@, schema.texts@, t as int, PlayerText::ShirtName);
        }
        let full = match spec.text {
            PlayerText::Name => source.name.as_str(),
            PlayerText::ShirtName => source.shirt_name.as_str(),
        };
        let value = cut(full, (spec.len - 1) as usize);
        proof {
            lemma_cut_count_bound(full@, spec.len - 1);
        }
        if value.as_str().unicode_len() < full.unicode_len() {
            notes.push(ConvertNote::TextTruncated { text: spec.text });
        }
        match spec.text {
            PlayerText::Name => {
                target.name = value;
            },
            PlayerText::ShirtName => {
                target.shirt_name = value;
            },
        }
        t = t + 1;
    }
    proof {
        assert(schema.texts@.take(schema.texts@.len() as int) =~= schema.texts@);
    }
    target.basic = source.basic;
    target.stats = PlayerStats {
        physical_contact: carry(target.stats.physical_contact, source.stats.physical_contact),
        catching: carry(target.stats.catching, source.stats.catching),
        clearing: carry(target.stats.clearing, source.stats.clearing),
        reflexes: carry(target.stats.reflexes, source.stats.reflexes),
        coverage: carry(target.stats.coverage, source.stats.coverage),
        star: carry(target.stats.star, source.stats.star),
        tight_possession: carry(target.stats.tight_possession, source.stats.tight_possession),
        aggression: carry(target.stats.aggression, source.stats.aggression),
        playing_attitude: carry(target.stats.playing_attitude, source.stats.playing_attitude),
        ..source.stats
    };
    let code: u8 = match find_style(&to.play_styles, style) {
        Some(i) => i as u8,
        None => {
            notes.push(ConvertNote::PlayingStyleDropped { style });
            0
        },
    };
    target.positions = PlayerPositions {
        playing_style: code,
        stronger_hand: carry(target.positions.stronger_hand, source.positions.stronger_hand),
        ..source.positions
    };
    target.skills.com_styles = source.skills.com_styles;
    let ghost texted = notes@;
    let rs = runs(schema);
    let mut skills = source.skills.skills;
    let mut i: usize = 0;
    while i < 41
        invariant
            i <= 41,
            rs@ == schema_runs(*schema),
            skills@.len() == 41,
            source.skills.skills@.len() == 41,
            forall|j: int| 0 <= j < i ==> skills@[j] == converted_skills(source.skills.skills@, rs@)[j],
            forall|j: int| i <= j < 41 ==> skills@[j] == source.skills.skills@[j],
            notes@ == texted + skill_notes(source.skills.skills@, rs@, i as nat),
        decreases 41 - i,
    {
        let known = runs_contain(&rs, PlayerField::Skill(i as u8));
        if skills[i] && !known {
            skills.set(i, false);
            notes.push(ConvertNote::SkillDropped { index: i as u8 });
        }
        proof {
            assert(notes@ =~= texted + skill_notes(source.skills.skills@, rs@, (i + 1) as nat));
        }
        i = i + 1;
    }
    proof {
        assert(skills@ =~= converted_skills(source.skills.skills@, schema_runs(*schema)));
    }
    target.skills.skills = skills;
    target.motion = PlayerMotion { dribbling: carry(target.motion.dribbling, source.motion.dribbling), ..source.motion };
    target.edit_flags = source.edit_flags;
    let mut face = IngameFace::default();
    std::mem::swap(&mut face, &mut target.appearance.ingame_face);
    let dropped = face.copy_from(&source.appearance.ingame_face);
    if dropped > 0 {
        notes.push(ConvertNote::FaceRunTruncated { bytes: dropped });
    }
    let ghost copied = face@;
    let skin = match face.get(IngameFaceField::SkinColor) {
        Ok(s) => s,
        Err(e) => {
            return Err(ConvertError::Codec(e));
        },
    };
    proof {
        lemma_skin_bits();
        let sk = face_field_spec(IngameFaceField::SkinColor);
        lemma_run_value_facts(face@, sk.bit_offset as int, sk.bit_width);
    }
    if skin == 7 && !(from.custom_skin && to.custom_skin) {
        match face.set(IngameFaceField::SkinColor, 1) {
            Ok(()) => {},
            Err(e) => {
                return Err(ConvertError::Codec(e));
            },
        }
        notes.push(ConvertNote::CustomSkinReset);
    }
    target.appearance = PlayerAppearance {
        player_gloves: target.appearance.player_gloves,
        player_gloves_color: target.appearance.player_gloves_color,
        skin_color: target.appearance.skin_color,
        iris_color: target.appearance.iris_color,
        ingame_face: face,
        ..source.appearance
    };
    Ok(notes)
}

} // verus!
