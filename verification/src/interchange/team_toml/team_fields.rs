//! What the `[team]` walk writes, field by field.
use vstd::prelude::*;

use crate::interchange::team_toml::team::{team_has, team_steps, walk, with_color, Step};
use crate::interchange::team_toml::TeamSection;
use crate::model::team::{TeamEditFlags, TeamEntry};
use crate::schema::{RecordSchema, TeamField, TeamText};

verus! {

/// The walk over `steps[0..i + 1]` is the walk over `steps[0..i]` followed
/// by key `i`.
proof fn lemma_walk_step(t: TeamEntry, steps: Seq<Step>, i: int)
    requires
        0 <= i < steps.len(),
    ensures
        walk(t, steps.take(i + 1)) == (if steps[i].0 && steps[i].1 {
            (steps[i].3)(walk(t, steps.take(i)))
        } else {
            walk(t, steps.take(i))
        }),
{
    assert(steps.take(i + 1).drop_last() =~= steps.take(i));
}

/// Keys 0 to 2 of the `[team]` walk, written out: the team after each from
/// the team before it.
proof fn lemma_team_walk_steps_0_to_2(t: TeamEntry, section: TeamSection, schema: RecordSchema<TeamField, TeamText>)
    ensures
        ({
            let steps = team_steps(section, schema);
            &&& walk(t, steps.take(1)) == (if section.name is Some { TeamEntry { name: section.name->0, ..walk(t, steps.take(0)) } } else { walk(t, steps.take(0)) })
            &&& walk(t, steps.take(2)) == (if section.short_name is Some { TeamEntry { short_name: section.short_name->0, ..walk(t, steps.take(1)) } } else { walk(t, steps.take(1)) })
            &&& walk(t, steps.take(3)) == (if section.manager_id is Some && team_has(schema, TeamField::ManagerId) { TeamEntry { manager_id: section.manager_id, ..walk(t, steps.take(2)) } } else { walk(t, steps.take(2)) })
        }),
{
    let steps = team_steps(section, schema);
    assert(walk(t, steps.take(1)) == (if section.name is Some { TeamEntry { name: section.name->0, ..walk(t, steps.take(0)) } } else { walk(t, steps.take(0)) })) by {
        lemma_walk_step(t, steps, 0);
    }
    assert(walk(t, steps.take(2)) == (if section.short_name is Some { TeamEntry { short_name: section.short_name->0, ..walk(t, steps.take(1)) } } else { walk(t, steps.take(1)) })) by {
        lemma_walk_step(t, steps, 1);
    }
    assert(walk(t, steps.take(3)) == (if section.manager_id is Some && team_has(schema, TeamField::ManagerId) { TeamEntry { manager_id: section.manager_id, ..walk(t, steps.take(2)) } } else { walk(t, steps.take(2)) })) by {
        lemma_walk_step(t, steps, 2);
    }
}

/// Keys 3 to 5 of the `[team]` walk, written out: the team after each from
/// the team before it.
proof fn lemma_team_walk_steps_3_to_5(t: TeamEntry, section: TeamSection, schema: RecordSchema<TeamField, TeamText>)
    ensures
        ({
            let steps = team_steps(section, schema);
            &&& walk(t, steps.take(4)) == (if section.stadium_id is Some && team_has(schema, TeamField::StadiumId) { TeamEntry { stadium_id: section.stadium_id, ..walk(t, steps.take(3)) } } else { walk(t, steps.take(3)) })
            &&& walk(t, steps.take(5)) == (if section.color_1 is Some && team_has(schema, TeamField::Color1Red) { TeamEntry { colors: Some(with_color(walk(t, steps.take(4)).colors, 0, section.color_1->0)), ..walk(t, steps.take(4)) } } else { walk(t, steps.take(4)) })
            &&& walk(t, steps.take(6)) == (if section.color_2 is Some && team_has(schema, TeamField::Color2Red) { TeamEntry { colors: Some(with_color(walk(t, steps.take(5)).colors, 1, section.color_2->0)), ..walk(t, steps.take(5)) } } else { walk(t, steps.take(5)) })
        }),
{
    let steps = team_steps(section, schema);
    assert(walk(t, steps.take(4)) == (if section.stadium_id is Some && team_has(schema, TeamField::StadiumId) { TeamEntry { stadium_id: section.stadium_id, ..walk(t, steps.take(3)) } } else { walk(t, steps.take(3)) })) by {
        lemma_walk_step(t, steps, 3);
    }
    assert(walk(t, steps.take(5)) == (if section.color_1 is Some && team_has(schema, TeamField::Color1Red) { TeamEntry { colors: Some(with_color(walk(t, steps.take(4)).colors, 0, section.color_1->0)), ..walk(t, steps.take(4)) } } else { walk(t, steps.take(4)) })) by {
        lemma_walk_step(t, steps, 4);
    }
    assert(walk(t, steps.take(6)) == (if section.color_2 is Some && team_has(schema, TeamField::Color2Red) { TeamEntry { colors: Some(with_color(walk(t, steps.take(5)).colors, 1, section.color_2->0)), ..walk(t, steps.take(5)) } } else { walk(t, steps.take(5)) })) by {
        lemma_walk_step(t, steps, 5);
    }
}

/// Keys 6 to 8 of the `[team]` walk, written out: the team after each from
/// the team before it.
proof fn lemma_team_walk_steps_6_to_8(t: TeamEntry, section: TeamSection, schema: RecordSchema<TeamField, TeamText>)
    ensures
        ({
            let steps = team_steps(section, schema);
            let flags = section.edit_flags;
            &&& walk(t, steps.take(7)) == (if section.kit_slots is Some && team_has(schema, TeamField::KitSlotNumber(0)) { TeamEntry { kit_slots: section.kit_slots, ..walk(t, steps.take(6)) } } else { walk(t, steps.take(6)) })
            &&& walk(t, steps.take(8)) == (if flags.name is Some && team_has(schema, TeamField::EditedName) { TeamEntry { edit_flags: TeamEditFlags { name: flags.name->0, ..walk(t, steps.take(7)).edit_flags }, ..walk(t, steps.take(7)) } } else { walk(t, steps.take(7)) })
            &&& walk(t, steps.take(9)) == (if flags.short_name is Some && team_has(schema, TeamField::EditedShortName) { TeamEntry { edit_flags: TeamEditFlags { short_name: flags.short_name, ..walk(t, steps.take(8)).edit_flags }, ..walk(t, steps.take(8)) } } else { walk(t, steps.take(8)) })
        }),
{
    let steps = team_steps(section, schema);
    let flags = section.edit_flags;
    assert(walk(t, steps.take(7)) == (if section.kit_slots is Some && team_has(schema, TeamField::KitSlotNumber(0)) { TeamEntry { kit_slots: section.kit_slots, ..walk(t, steps.take(6)) } } else { walk(t, steps.take(6)) })) by {
        lemma_walk_step(t, steps, 6);
    }
    assert(walk(t, steps.take(8)) == (if flags.name is Some && team_has(schema, TeamField::EditedName) { TeamEntry { edit_flags: TeamEditFlags { name: flags.name->0, ..walk(t, steps.take(7)).edit_flags }, ..walk(t, steps.take(7)) } } else { walk(t, steps.take(7)) })) by {
        lemma_walk_step(t, steps, 7);
    }
    assert(walk(t, steps.take(9)) == (if flags.short_name is Some && team_has(schema, TeamField::EditedShortName) { TeamEntry { edit_flags: TeamEditFlags { short_name: flags.short_name, ..walk(t, steps.take(8)).edit_flags }, ..walk(t, steps.take(8)) } } else { walk(t, steps.take(8)) })) by {
        lemma_walk_step(t, steps, 8);
    }
}

/// Keys 9 to 10 of the `[team]` walk, written out: the team after each from
/// the team before it.
proof fn lemma_team_walk_steps_9_to_10(t: TeamEntry, section: TeamSection, schema: RecordSchema<TeamField, TeamText>)
    ensures
        ({
            let steps = team_steps(section, schema);
            let flags = section.edit_flags;
            &&& walk(t, steps.take(10)) == (if flags.stadium is Some && team_has(schema, TeamField::EditedStadium) { TeamEntry { edit_flags: TeamEditFlags { stadium: flags.stadium, ..walk(t, steps.take(9)).edit_flags }, ..walk(t, steps.take(9)) } } else { walk(t, steps.take(9)) })
            &&& walk(t, steps.take(11)) == (if flags.strip is Some && team_has(schema, TeamField::EditedStrip) { TeamEntry { edit_flags: TeamEditFlags { strip: flags.strip, ..walk(t, steps.take(10)).edit_flags }, ..walk(t, steps.take(10)) } } else { walk(t, steps.take(10)) })
        }),
{
    let steps = team_steps(section, schema);
    let flags = section.edit_flags;
    assert(walk(t, steps.take(10)) == (if flags.stadium is Some && team_has(schema, TeamField::EditedStadium) { TeamEntry { edit_flags: TeamEditFlags { stadium: flags.stadium, ..walk(t, steps.take(9)).edit_flags }, ..walk(t, steps.take(9)) } } else { walk(t, steps.take(9)) })) by {
        lemma_walk_step(t, steps, 9);
    }
    assert(walk(t, steps.take(11)) == (if flags.strip is Some && team_has(schema, TeamField::EditedStrip) { TeamEntry { edit_flags: TeamEditFlags { strip: flags.strip, ..walk(t, steps.take(10)).edit_flags }, ..walk(t, steps.take(10)) } } else { walk(t, steps.take(10)) })) by {
        lemma_walk_step(t, steps, 10);
    }
}

/// The `[team]` walk starts at the team and ends after its eleven keys.
proof fn lemma_team_walk_ends(t: TeamEntry, section: TeamSection, schema: RecordSchema<TeamField, TeamText>)
    ensures
        walk(t, team_steps(section, schema).take(0)) == t,
        walk(t, team_steps(section, schema).take(11)) == walk(t, team_steps(section, schema)),
{
    let steps = team_steps(section, schema);
    assert(steps.take(0) =~= Seq::<Step>::empty());
    assert(steps.take(11) =~= steps);
}

/// The `[team]` walk composed field by field from its eleven steps.
proof fn lemma_team_walk_fields(section: TeamSection, schema: RecordSchema<TeamField, TeamText>, w0: TeamEntry, w1: TeamEntry, w2: TeamEntry, w3: TeamEntry, w4: TeamEntry, w5: TeamEntry, w6: TeamEntry, w7: TeamEntry, w8: TeamEntry, w9: TeamEntry, w10: TeamEntry, w11: TeamEntry)
    requires
        ({
            let flags = section.edit_flags;
            &&& w1 == (if section.name is Some { TeamEntry { name: section.name->0, ..w0 } } else { w0 })
            &&& w2 == (if section.short_name is Some { TeamEntry { short_name: section.short_name->0, ..w1 } } else { w1 })
            &&& w3 == (if section.manager_id is Some && team_has(schema, TeamField::ManagerId) { TeamEntry { manager_id: section.manager_id, ..w2 } } else { w2 })
            &&& w4 == (if section.stadium_id is Some && team_has(schema, TeamField::StadiumId) { TeamEntry { stadium_id: section.stadium_id, ..w3 } } else { w3 })
            &&& w5 == (if section.color_1 is Some && team_has(schema, TeamField::Color1Red) { TeamEntry { colors: Some(with_color(w4.colors, 0, section.color_1->0)), ..w4 } } else { w4 })
            &&& w6 == (if section.color_2 is Some && team_has(schema, TeamField::Color2Red) { TeamEntry { colors: Some(with_color(w5.colors, 1, section.color_2->0)), ..w5 } } else { w5 })
            &&& w7 == (if section.kit_slots is Some && team_has(schema, TeamField::KitSlotNumber(0)) { TeamEntry { kit_slots: section.kit_slots, ..w6 } } else { w6 })
            &&& w8 == (if flags.name is Some && team_has(schema, TeamField::EditedName) { TeamEntry { edit_flags: TeamEditFlags { name: flags.name->0, ..w7.edit_flags }, ..w7 } } else { w7 })
            &&& w9 == (if flags.short_name is Some && team_has(schema, TeamField::EditedShortName) { TeamEntry { edit_flags: TeamEditFlags { short_name: flags.short_name, ..w8.edit_flags }, ..w8 } } else { w8 })
            &&& w10 == (if flags.stadium is Some && team_has(schema, TeamField::EditedStadium) { TeamEntry { edit_flags: TeamEditFlags { stadium: flags.stadium, ..w9.edit_flags }, ..w9 } } else { w9 })
            &&& w11 == (if flags.strip is Some && team_has(schema, TeamField::EditedStrip) { TeamEntry { edit_flags: TeamEditFlags { strip: flags.strip, ..w10.edit_flags }, ..w10 } } else { w10 })
        }),
    ensures
        ({
            let w = w11;
            let flags = section.edit_flags;
            let c1 = section.color_1 is Some && team_has(schema, TeamField::Color1Red);
            let c2 = section.color_2 is Some && team_has(schema, TeamField::Color2Red);
            let after_1 = if c1 { Some(with_color(w0.colors, 0, section.color_1->0)) } else { w0.colors };
            &&& w.id == w0.id
            &&& w.roster == w0.roster
            &&& w.tactics == w0.tactics
            &&& w.name == (if section.name is Some { section.name->0 } else { w0.name })
            &&& w.short_name == (if section.short_name is Some { section.short_name->0 } else { w0.short_name })
            &&& w.manager_id == (if section.manager_id is Some && team_has(schema, TeamField::ManagerId) {
                section.manager_id
            } else {
                w0.manager_id
            })
            &&& w.stadium_id == (if section.stadium_id is Some && team_has(schema, TeamField::StadiumId) {
                section.stadium_id
            } else {
                w0.stadium_id
            })
            &&& w.colors == (if c2 { Some(with_color(after_1, 1, section.color_2->0)) } else { after_1 })
            &&& w.kit_slots == (if section.kit_slots is Some && team_has(schema, TeamField::KitSlotNumber(0)) {
                section.kit_slots
            } else {
                w0.kit_slots
            })
            &&& w.edit_flags.name == (if flags.name is Some && team_has(schema, TeamField::EditedName) {
                flags.name->0
            } else {
                w0.edit_flags.name
            })
            &&& w.edit_flags.short_name == (if flags.short_name is Some && team_has(schema, TeamField::EditedShortName) {
                flags.short_name
            } else {
                w0.edit_flags.short_name
            })
            &&& w.edit_flags.stadium == (if flags.stadium is Some && team_has(schema, TeamField::EditedStadium) {
                flags.stadium
            } else {
                w0.edit_flags.stadium
            })
            &&& w.edit_flags.strip == (if flags.strip is Some && team_has(schema, TeamField::EditedStrip) {
                flags.strip
            } else {
                w0.edit_flags.strip
            })
        }),
{
}

/// Each `[team]` key is written to the team field of its own name, and only
/// there: after the `[team]` walk, a field whose key the document holds and the
/// target stores carries the document's value, and every other field (the id,
/// the roster and the tactics always) is the team's own. The two colours are
/// set one after the other, an absent pair starting black.
#[verifier::spinoff_prover]
pub proof fn law_each_team_key_writes_its_own_field(
    t: TeamEntry,
    section: TeamSection,
    schema: RecordSchema<TeamField, TeamText>,
)
    ensures
        ({
            let w = walk(t, team_steps(section, schema));
            let flags = section.edit_flags;
            let c1 = section.color_1 is Some && team_has(schema, TeamField::Color1Red);
            let c2 = section.color_2 is Some && team_has(schema, TeamField::Color2Red);
            let after_1 = if c1 { Some(with_color(t.colors, 0, section.color_1->0)) } else { t.colors };
            &&& w.id == t.id
            &&& w.roster == t.roster
            &&& w.tactics == t.tactics
            &&& w.name == (if section.name is Some { section.name->0 } else { t.name })
            &&& w.short_name == (if section.short_name is Some { section.short_name->0 } else { t.short_name })
            &&& w.manager_id == (if section.manager_id is Some && team_has(schema, TeamField::ManagerId) {
                section.manager_id
            } else {
                t.manager_id
            })
            &&& w.stadium_id == (if section.stadium_id is Some && team_has(schema, TeamField::StadiumId) {
                section.stadium_id
            } else {
                t.stadium_id
            })
            &&& w.colors == (if c2 { Some(with_color(after_1, 1, section.color_2->0)) } else { after_1 })
            &&& w.kit_slots == (if section.kit_slots is Some && team_has(schema, TeamField::KitSlotNumber(0)) {
                section.kit_slots
            } else {
                t.kit_slots
            })
            &&& w.edit_flags.name == (if flags.name is Some && team_has(schema, TeamField::EditedName) {
                flags.name->0
            } else {
                t.edit_flags.name
            })
            &&& w.edit_flags.short_name == (if flags.short_name is Some && team_has(schema, TeamField::EditedShortName) {
                flags.short_name
            } else {
                t.edit_flags.short_name
            })
            &&& w.edit_flags.stadium == (if flags.stadium is Some && team_has(schema, TeamField::EditedStadium) {
                flags.stadium
            } else {
                t.edit_flags.stadium
            })
            &&& w.edit_flags.strip == (if flags.strip is Some && team_has(schema, TeamField::EditedStrip) {
                flags.strip
            } else {
                t.edit_flags.strip
            })
        }),
{
    let steps = team_steps(section, schema);
    lemma_team_walk_ends(t, section, schema);
    lemma_team_walk_steps_0_to_2(t, section, schema);
    lemma_team_walk_steps_3_to_5(t, section, schema);
    lemma_team_walk_steps_6_to_8(t, section, schema);
    lemma_team_walk_steps_9_to_10(t, section, schema);
    lemma_team_walk_fields(section, schema, walk(t, steps.take(0)), walk(t, steps.take(1)), walk(t, steps.take(2)), walk(t, steps.take(3)), walk(t, steps.take(4)), walk(t, steps.take(5)), walk(t, steps.take(6)), walk(t, steps.take(7)), walk(t, steps.take(8)), walk(t, steps.take(9)), walk(t, steps.take(10)), walk(t, steps.take(11)));
}

} // verus!
