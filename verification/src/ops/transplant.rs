//! Aesthetics transplant: copy the appearance data of selected players from a
//! donor save into a target save of the same version (the scripts' four
//! selection forms kept as-is: single player id, `target:donor` id pairs,
//! whole team, team ranges).
use vstd::prelude::*;

use crate::file::{
    first_player_with_id, lemma_first_player_facts, lemma_first_player_same_ids, view_version,
    EditFile, FileView,
};
use crate::model::player::{PlayerEditFlags, PlayerEntry};
use crate::version::PesVersion;

verus! {

/// `after` is `target` with `donor`'s appearance block (`appearance` and the
/// face, hair, physique and strip edit flags); everything else, the id
/// included, is the target's own.
pub open spec fn transplanted(target: PlayerEntry, donor: PlayerEntry, after: PlayerEntry) -> bool {
    &&& after.appearance.same_as(donor.appearance)
    &&& after.edit_flags == (PlayerEditFlags {
        face: donor.edit_flags.face,
        hair: donor.edit_flags.hair,
        physique: donor.edit_flags.physique,
        strip: donor.edit_flags.strip,
        ..target.edit_flags
    })
    &&& after.id == target.id
    &&& after.name == target.name
    &&& after.shirt_name == target.shirt_name
    &&& after.basic == target.basic
    &&& after.stats == target.stats
    &&& after.positions == target.positions
    &&& after.skills == target.skills
    &&& after.motion == target.motion
}

/// The per-entry operation: `target` takes `donor`'s appearance block
/// (`appearance`, ingame-face run included, and the face/hair/physique/strip
/// edit flags); everything else, the id included, is the target's own.
pub fn transplant_player(target: &mut PlayerEntry, donor: &PlayerEntry)
    ensures
        transplanted(*old(target), *donor, *final(target)),
{
    target.appearance = donor.appearance.duplicate();
    target.edit_flags.face = donor.edit_flags.face;
    target.edit_flags.hair = donor.edit_flags.hair;
    target.edit_flags.physique = donor.edit_flags.physique;
    target.edit_flags.strip = donor.edit_flags.strip;
}

/// A transplant that could not run.
#[derive(Debug, Clone, Copy, PartialEq, Eq)]
pub enum TransplantError {
    /// The two saves are not of the same game version.
    VersionMismatch {
        /// The target save's version.
        target: PesVersion,
        /// The donor save's version.
        donor: PesVersion,
    },
    /// A pair names a player the target save lacks.
    TargetMissing(u32),
    /// A pair names a player the donor save lacks.
    DonorMissing(u32),
}

/// The error of the first pair that names a player one of the saves lacks:
/// the target's side is checked first.
pub open spec fn first_missing(
    targets: Seq<PlayerEntry>,
    donors: Seq<PlayerEntry>,
    pairs: Seq<(u32, u32)>,
) -> Option<TransplantError>
    decreases pairs.len(),
{
    if pairs.len() == 0 {
        None
    } else if first_player_with_id(targets, pairs[0].0) is None {
        Some(TransplantError::TargetMissing(pairs[0].0))
    } else if first_player_with_id(donors, pairs[0].1) is None {
        Some(TransplantError::DonorMissing(pairs[0].1))
    } else {
        first_missing(targets, donors, pairs.drop_first())
    }
}

/// The last pair whose target is player `i` of `targets`.
pub open spec fn last_pair_onto(targets: Seq<PlayerEntry>, pairs: Seq<(u32, u32)>, i: int) -> Option<int>
    decreases pairs.len(),
{
    if pairs.len() == 0 {
        None
    } else if first_player_with_id(targets, pairs.last().0) == Some(i) {
        Some(pairs.len() - 1)
    } else {
        last_pair_onto(targets, pairs.drop_last(), i)
    }
}

/// `after` is `targets` with the pairs applied in order: a player no pair
/// targets is unchanged; one that pairs target holds the appearance block of
/// the donor named by the last of them (a later pair onto the same id wins).
pub open spec fn pairs_applied(
    targets: Seq<PlayerEntry>,
    donors: Seq<PlayerEntry>,
    pairs: Seq<(u32, u32)>,
    after: Seq<PlayerEntry>,
) -> bool {
    &&& after.len() == targets.len()
    &&& forall|i: int|
        0 <= i < targets.len() ==> match last_pair_onto(targets, pairs, i) {
            Some(k) => transplanted(
                targets[i],
                donors[first_player_with_id(donors, pairs[k].1)->0],
                #[trigger] after[i],
            ),
            None => after[i] == targets[i],
        }
}

/// One more pair: the last pair onto its own target becomes that pair.
proof fn lemma_last_pair_step(targets: Seq<PlayerEntry>, pairs: Seq<(u32, u32)>, k: int, i: int)
    requires
        0 <= k < pairs.len(),
    ensures
        last_pair_onto(targets, pairs.take(k + 1), i) == if first_player_with_id(targets, pairs[k].0) == Some(i) {
            Some(k)
        } else {
            last_pair_onto(targets, pairs.take(k), i)
        },
{
    let t = pairs.take(k + 1);
    assert(t.drop_last() =~= pairs.take(k));
    assert(t.last() == pairs[k]);
}

/// The pair a last-pair index names lies before the end and targets `i`.
proof fn lemma_last_pair_facts(targets: Seq<PlayerEntry>, pairs: Seq<(u32, u32)>, i: int)
    ensures
        last_pair_onto(targets, pairs, i) matches Some(k) ==> 0 <= k < pairs.len()
            && first_player_with_id(targets, pairs[k].0) == Some(i),
    decreases pairs.len(),
{
    if pairs.len() > 0 {
        lemma_last_pair_facts(targets, pairs.drop_last(), i);
        let d = pairs.drop_last();
        match last_pair_onto(targets, d, i) {
            Some(k) => {
                assert(d[k] == pairs[k]);
            },
            None => {},
        }
    }
}

/// The save-level operation over `(target_id, donor_id)` pairs;
/// all-or-nothing: the version pair and every id are checked before the first
/// write.
pub fn transplant(target: &mut EditFile, donor: &EditFile, pairs: &[(u32, u32)]) -> (r: Result<
    (),
    TransplantError,
>)
    ensures
        view_version(old(target)@.0) != view_version(donor@.0) ==> r == Err::<(), TransplantError>(
            TransplantError::VersionMismatch {
                target: view_version(old(target)@.0),
                donor: view_version(donor@.0),
            },
        ) && final(target)@ == old(target)@,
        view_version(old(target)@.0) == view_version(donor@.0) ==> match first_missing(
            old(target)@.2,
            donor@.2,
            pairs@,
        ) {
            Some(e) => r == Err::<(), TransplantError>(e) && final(target)@ == old(target)@,
            None => r is Ok && final(target)@.0 == old(target)@.0 && final(target)@.1 == old(target)@.1
                && final(target)@.3 == old(target)@.3 && final(target)@.4 == old(target)@.4 && pairs_applied(
                old(target)@.2,
                donor@.2,
                pairs@,
                final(target)@.2,
            ),
        },
{
    if target.version() != donor.version() {
        return Err(TransplantError::VersionMismatch { target: target.version(), donor: donor.version() });
    }
    let ghost start: FileView = target@;
    proof {
        assert(pairs@.subrange(0, pairs@.len() as int) =~= pairs@);
    }
    let mut k: usize = 0;
    while k < pairs.len()
        invariant
            k <= pairs@.len(),
            target@ == start,
            view_version(start.0) == view_version(donor@.0),
            first_missing(start.2, donor@.2, pairs@) == first_missing(
                start.2,
                donor@.2,
                pairs@.subrange(k as int, pairs@.len() as int),
            ),
            forall|j: int|
                0 <= j < k ==> first_player_with_id(start.2, (#[trigger] pairs@[j]).0) is Some
                    && first_player_with_id(donor@.2, pairs@[j].1) is Some,
        decreases pairs@.len() - k,
    {
        let (target_id, donor_id) = pairs[k];
        let ghost rest = pairs@.subrange(k as int, pairs@.len() as int);
        proof {
            assert(rest[0] == pairs@[k as int]);
            assert(rest.drop_first() =~= pairs@.subrange(k + 1, pairs@.len() as int));
        }
        if target.player(target_id).is_none() {
            return Err(TransplantError::TargetMissing(target_id));
        }
        if donor.player(donor_id).is_none() {
            return Err(TransplantError::DonorMissing(donor_id));
        }
        k = k + 1;
    }
    proof {
        assert(pairs@.subrange(pairs@.len() as int, pairs@.len() as int).len() == 0);
    }
    let mut k: usize = 0;
    while k < pairs.len()
        invariant
            k <= pairs@.len(),
            target@.0 == start.0,
            target@.1 == start.1,
            target@.3 == start.3,
            target@.4 == start.4,
            pairs_applied(start.2, donor@.2, pairs@.take(k as int), target@.2),
            forall|j: int|
                0 <= j < pairs@.len() ==> first_player_with_id(start.2, (#[trigger] pairs@[j]).0) is Some
                    && first_player_with_id(donor@.2, pairs@[j].1) is Some,
        decreases pairs@.len() - k,
    {
        let (target_id, donor_id) = pairs[k];
        let ghost before = target@.2;
        proof {
            assert forall|i: int| 0 <= i < before.len() implies (#[trigger] before[i]).id == start.2[i].id by {
                lemma_last_pair_facts(start.2, pairs@.take(k as int), i);
            }
            lemma_first_player_same_ids(before, start.2, target_id, 0);
            assert(first_player_with_id(start.2, pairs@[k as int].0) is Some);
            assert(first_player_with_id(donor@.2, pairs@[k as int].1) is Some);
            lemma_first_player_facts(start.2, target_id, 0);
            lemma_first_player_facts(donor@.2, donor_id, 0);
        }
        let source = match donor.player(donor_id) {
            Some(p) => p,
            None => {
                return Ok(());
            },
        };
        match target.player_mut(target_id) {
            Some(slot) => {
                transplant_player(slot, source);
            },
            None => {},
        }
        proof {
            let ti = first_player_with_id(start.2, target_id)->0;
            assert forall|i: int| 0 <= i < start.2.len() implies match last_pair_onto(start.2, pairs@.take(k + 1), i) {
                Some(q) => transplanted(
                    start.2[i],
                    donor@.2[first_player_with_id(donor@.2, pairs@.take(k + 1)[q].1)->0],
                    #[trigger] target@.2[i],
                ),
                None => target@.2[i] == start.2[i],
            } by {
                lemma_last_pair_step(start.2, pairs@, k as int, i);
                lemma_last_pair_facts(start.2, pairs@.take(k as int), i);
                if i == ti {
                    assert(pairs@.take(k + 1)[k as int] == pairs@[k as int]);
                } else {
                    match last_pair_onto(start.2, pairs@.take(k as int), i) {
                        Some(q) => {
                            assert(pairs@.take(k + 1)[q] == pairs@.take(k as int)[q]);
                        },
                        None => {},
                    }
                }
            }
        }
        k = k + 1;
    }
    proof {
        assert(pairs@.take(pairs@.len() as int) =~= pairs@);
    }
    Ok(())
}


/// A selection argument that is not one of the scripts' four forms.
#[derive(Debug, Clone, PartialEq, Eq)]
pub enum SelectionError {
    /// Not a number, or a pair/range with more than one separator.
    Malformed(String),
    /// A range whose ends are not teams (below 1000) or run backwards.
    BadRange(String),
}

/// An ASCII digit.
pub open spec fn is_digit(c: char) -> bool {
    '0' <= c && c <= '9'
}

/// The value of a run of ASCII digits.
pub open spec fn digits_value(d: Seq<char>) -> nat
    decreases d.len(),
{
    if d.len() == 0 {
        0
    } else {
        digits_value(d.drop_last()) * 10 + ((d.last() as u32) - ('0' as u32)) as nat
    }
}

/// The value of one or more ASCII digits, when it fits a `u32`.
pub open spec fn digits_number(d: Seq<char>) -> Option<u32> {
    if d.len() > 0 && (forall|i: int| 0 <= i < d.len() ==> is_digit(#[trigger] d[i])) && digits_value(d)
        <= u32::MAX {
        Some(digits_value(d) as u32)
    } else {
        None
    }
}

/// What `u32::from_str` reads from `s`: an optional `+`, then one or more
/// ASCII digits whose value fits a `u32`.
pub open spec fn number_spec(s: Seq<char>) -> Option<u32> {
    if s.len() > 0 && s[0] == '+' {
        digits_number(s.drop_first())
    } else {
        digits_number(s)
    }
}

/// How many times `c` occurs in `s`.
pub open spec fn count_char(s: Seq<char>, c: char) -> nat
    decreases s.len(),
{
    if s.len() == 0 {
        0
    } else {
        count_char(s.drop_last(), c) + if s.last() == c {
            1nat
        } else {
            0nat
        }
    }
}

/// Team `t`'s 23 player slots, each paired onto itself.
pub open spec fn team_pairs_spec(t: u32) -> Seq<(u32, u32)> {
    Seq::new(23, |s: int| ((t * 100 + s + 1) as u32, (t * 100 + s + 1) as u32))
}

/// The slots of teams `start..=stop`, team by team.
pub open spec fn range_pairs_spec(start: u32, stop: u32) -> Seq<(u32, u32)> {
    Seq::new(
        ((stop - start + 1) * 23) as nat,
        |k: int| (((start + k / 23) * 100 + k % 23 + 1) as u32, ((start + k / 23) * 100 + k % 23 + 1) as u32),
    )
}

/// What a selection argument expands to, or, when it is none of the four
/// forms, whether the failure is a bad range (`true`) or a malformed argument.
pub open spec fn selection_spec(s: Seq<char>) -> Result<Seq<(u32, u32)>, bool> {
    if count_char(s, ':') > 0 {
        if count_char(s, ':') != 1 {
            Err(false)
        } else {
            let i = choose|i: int| 0 <= i < s.len() && s[i] == ':';
            match (number_spec(s.subrange(0, i)), number_spec(s.subrange(i + 1, s.len() as int))) {
                (Some(a), Some(b)) => Ok(seq![(a, b)]),
                _ => Err(false),
            }
        }
    } else if count_char(s, '-') > 0 {
        if count_char(s, '-') != 1 {
            Err(false)
        } else {
            let i = choose|i: int| 0 <= i < s.len() && s[i] == '-';
            match (number_spec(s.subrange(0, i)), number_spec(s.subrange(i + 1, s.len() as int))) {
                (Some(start), Some(stop)) => if start >= 1000 || stop >= 1000 || start > stop {
                    Err(true)
                } else {
                    Ok(range_pairs_spec(start, stop))
                },
                _ => Err(false),
            }
        }
    } else {
        match number_spec(s) {
            Some(n) => if n < 1000 {
                Ok(team_pairs_spec(n))
            } else {
                Ok(seq![(n, n)])
            },
            None => Err(false),
        }
    }
}

/// A longer run of digits is worth at least its prefix.
proof fn lemma_digits_prefix(d: Seq<char>, k: int)
    requires
        0 <= k <= d.len(),
        forall|i: int| 0 <= i < d.len() ==> is_digit(#[trigger] d[i]),
    ensures
        digits_value(d.take(k)) <= digits_value(d),
    decreases d.len(),
{
    if k < d.len() {
        assert(d.drop_last().take(k) =~= d.take(k));
        lemma_digits_prefix(d.drop_last(), k);
    } else {
        assert(d.take(k) =~= d);
    }
}

/// The number `chars[start..end]` spells, as `u32::from_str` reads it.
#[verifier::loop_isolation(false)]
fn parse_number(chars: &Vec<char>, start: usize, end: usize) -> (r: Option<u32>)
    requires
        start <= end <= chars@.len(),
    ensures
        r == number_spec(chars@.subrange(start as int, end as int)),
{
    let ghost s = chars@.subrange(start as int, end as int);
    let mut i = start;
    if i < end && chars[i] == '+' {
        i = i + 1;
    }
    let ghost d = chars@.subrange(i as int, end as int);
    proof {
        if s.len() > 0 && s[0] == '+' {
            assert(s.drop_first() =~= d);
        } else {
            assert(s =~= d);
        }
    }
    if i == end {
        return None;
    }
    let mut j = i;
    while j < end
        invariant
            i <= j <= end <= chars@.len(),
            d == chars@.subrange(i as int, end as int),
            forall|t: int| i <= t < j ==> is_digit(#[trigger] chars@[t]),
        decreases end - j,
    {
        let c = chars[j];
        if !('0' <= c && c <= '9') {
            proof {
                assert(d[j - i] == c);
                assert(!is_digit(d[j - i]));
                let dd = if s.len() > 0 && s[0] == '+' {
                    s.drop_first()
                } else {
                    s
                };
                assert(dd == d);
                assert(!is_digit(dd[j - i]));
            }
            return None;
        }
        j = j + 1;
    }
    proof {
        assert forall|t: int| 0 <= t < d.len() implies is_digit(#[trigger] d[t]) by {
            assert(d[t] == chars@[i + t]);
        }
    }
    let mut v: u64 = 0;
    let mut j = i;
    while j < end
        invariant
            i <= j <= end <= chars@.len(),
            d == chars@.subrange(i as int, end as int),
            forall|t: int| 0 <= t < d.len() ==> is_digit(#[trigger] d[t]),
            v == digits_value(d.take(j - i)),
            v <= u32::MAX,
        decreases end - j,
    {
        let c = chars[j];
        proof {
            assert(d[j - i] == c);
            assert(is_digit(d[j - i]));
            let p = d.take(j - i + 1);
            assert(p.drop_last() =~= d.take(j - i));
            assert(p.last() == c);
        }
        let digit = ((c as u32) - ('0' as u32)) as u64;
        v = v * 10 + digit;
        if v > 0xffff_ffff {
            proof {
                lemma_digits_prefix(d, j - i + 1);
            }
            return None;
        }
        j = j + 1;
    }
    proof {
        assert(d.take(d.len() as int) =~= d);
    }
    Some(v as u32)
}

/// The chars of `arg`.
fn chars_of(arg: &str) -> (v: Vec<char>)
    ensures
        v@ == arg@,
{
    let mut v: Vec<char> = Vec::new();
    for c in it: arg.chars()
        invariant
            it.seq() == arg@,
            v@ == arg@.take(it.index() as int),
    {
        v.push(c);
        proof {
            assert(v@ =~= arg@.take(it.index() + 1));
        }
    }
    assert(arg@.take(arg@.len() as int) =~= arg@);
    v
}


/// Two places holding `c` count twice.
proof fn lemma_count_two(s: Seq<char>, c: char, i: int, j: int)
    requires
        0 <= i < j < s.len(),
        s[i] == c,
        s[j] == c,
    ensures
        count_char(s, c) >= 2,
    decreases s.len(),
{
    let d = s.drop_last();
    if j == s.len() - 1 {
        assert(d[i] == c);
        lemma_count_one(d, c, i);
    } else {
        assert(d[i] == c);
        assert(d[j] == c);
        lemma_count_two(d, c, i, j);
    }
}

/// A place holding `c` counts once.
proof fn lemma_count_one(s: Seq<char>, c: char, i: int)
    requires
        0 <= i < s.len(),
        s[i] == c,
    ensures
        count_char(s, c) >= 1,
    decreases s.len(),
{
    if i < s.len() - 1 {
        let d = s.drop_last();
        assert(d[i] == c);
        lemma_count_one(d, c, i);
    }
}

/// How many times `c` occurs in `chars`, and where it first does.
fn find_char(chars: &Vec<char>, c: char) -> (r: (usize, usize))
    ensures
        r.0 == count_char(chars@, c),
        r.0 > 0 ==> r.1 < chars@.len() && chars@[r.1 as int] == c,
{
    let mut count: usize = 0;
    let mut first: usize = 0;
    let mut k: usize = 0;
    while k < chars.len()
        invariant
            k <= chars@.len(),
            count == count_char(chars@.take(k as int), c),
            count <= k,
            count > 0 ==> first < k && chars@[first as int] == c,
        decreases chars@.len() - k,
    {
        proof {
            let t = chars@.take(k + 1);
            assert(t.drop_last() =~= chars@.take(k as int));
            assert(t.last() == chars@[k as int]);
        }
        if chars[k] == c {
            if count == 0 {
                first = k;
            }
            count = count + 1;
        }
        k = k + 1;
    }
    proof {
        assert(chars@.take(chars@.len() as int) =~= chars@);
    }
    (count, first)
}

/// The place of the only `c` in `s`.
proof fn lemma_only_place(s: Seq<char>, c: char, i: int)
    requires
        count_char(s, c) == 1,
        0 <= i < s.len(),
        s[i] == c,
    ensures
        (choose|j: int| 0 <= j < s.len() && s[j] == c) == i,
{
    let j = choose|j: int| 0 <= j < s.len() && s[j] == c;
    if j < i {
        lemma_count_two(s, c, j, i);
    } else if i < j {
        lemma_count_two(s, c, i, j);
    }
}

/// Team `t`'s 23 player slots, each paired onto itself.
fn team_pairs(t: u32) -> (v: Vec<(u32, u32)>)
    requires
        t < 1000,
    ensures
        v@ == team_pairs_spec(t),
{
    let mut v: Vec<(u32, u32)> = Vec::new();
    let mut s: u32 = 0;
    while s < 23
        invariant
            s <= 23,
            t < 1000,
            v@ == Seq::new(s as nat, |j: int| ((t * 100 + j + 1) as u32, (t * 100 + j + 1) as u32)),
        decreases 23 - s,
    {
        v.push((t * 100 + s + 1, t * 100 + s + 1));
        s = s + 1;
        assert(v@ =~= Seq::new(s as nat, |j: int| ((t * 100 + j + 1) as u32, (t * 100 + j + 1) as u32)));
    }
    v
}

/// The slots of teams `start..=stop`, team by team.
fn range_pairs(start: u32, stop: u32) -> (v: Vec<(u32, u32)>)
    requires
        start <= stop < 1000,
    ensures
        v@ == range_pairs_spec(start, stop),
{
    let total = (stop - start + 1) * 23;
    let mut v: Vec<(u32, u32)> = Vec::new();
    let mut k: u32 = 0;
    while k < total
        invariant
            k <= total,
            total == (stop - start + 1) * 23,
            start <= stop < 1000,
            v@ == Seq::new(
                k as nat,
                |j: int| (((start + j / 23) * 100 + j % 23 + 1) as u32, ((start + j / 23) * 100 + j % 23 + 1) as u32),
            ),
        decreases total - k,
    {
        proof {
            assert(k / 23 <= stop - start) by (nonlinear_arith)
                requires
                    k < (stop - start + 1) * 23,
            ;
        }
        let id = (start + k / 23) * 100 + k % 23 + 1;
        v.push((id, id));
        k = k + 1;
        assert(v@ =~= Seq::new(
            k as nat,
            |j: int| (((start + j / 23) * 100 + j % 23 + 1) as u32, ((start + j / 23) * 100 + j % 23 + 1) as u32),
        ));
    }
    v
}

/// One selection argument in the scripts' four forms, expanded to `(target,
/// donor)` pairs: `70103` (one player, onto itself), `70103:70205`
/// (target:donor), `701` (a team: its slots 1-23, `team * 100 + 1..=23`, onto
/// themselves), `701-720` (a team range, likewise). A number below 1000 is a
/// team, as in the scripts.
pub fn parse_selection(arg: &str) -> (r: Result<Vec<(u32, u32)>, SelectionError>)
    ensures
        match selection_spec(arg@) {
            Ok(pairs) => r matches Ok(v) && v@ == pairs,
            Err(bad_range) => r matches Err(e) && if bad_range {
                e matches SelectionError::BadRange(t) && t@ == arg@
            } else {
                e matches SelectionError::Malformed(t) && t@ == arg@
            },
        },
{
    let chars = chars_of(arg);
    let len = chars.len();
    let (colons, colon_at) = find_char(&chars, ':');
    if colons > 0 {
        if colons != 1 {
            return Err(SelectionError::Malformed(arg.to_string()));
        }
        proof {
            lemma_only_place(chars@, ':', colon_at as int);
        }
        let a = parse_number(&chars, 0, colon_at);
        let b = parse_number(&chars, colon_at + 1, len);
        return match (a, b) {
            (Some(a), Some(b)) => {
                let mut v: Vec<(u32, u32)> = Vec::new();
                v.push((a, b));
                assert(v@ =~= seq![(a, b)]);
                Ok(v)
            },
            _ => Err(SelectionError::Malformed(arg.to_string())),
        };
    }
    let (dashes, dash_at) = find_char(&chars, '-');
    if dashes > 0 {
        if dashes != 1 {
            return Err(SelectionError::Malformed(arg.to_string()));
        }
        proof {
            lemma_only_place(chars@, '-', dash_at as int);
        }
        let a = parse_number(&chars, 0, dash_at);
        let b = parse_number(&chars, dash_at + 1, len);
        return match (a, b) {
            (Some(start), Some(stop)) => {
                if start >= 1000 || stop >= 1000 || start > stop {
                    Err(SelectionError::BadRange(arg.to_string()))
                } else {
                    Ok(range_pairs(start, stop))
                }
            },
            _ => Err(SelectionError::Malformed(arg.to_string())),
        };
    }
    proof {
        assert(chars@.subrange(0, len as int) =~= chars@);
    }
    match parse_number(&chars, 0, len) {
        Some(n) => {
            if n < 1000 {
                Ok(team_pairs(n))
            } else {
                let mut v: Vec<(u32, u32)> = Vec::new();
                v.push((n, n));
                assert(v@ =~= seq![(n, n)]);
                Ok(v)
            }
        },
        None => {
            Err(SelectionError::Malformed(arg.to_string()))
        },
    }
}

} // verus!
