//! What holds of the registry and of the dispatch whatever is registered,
//! stated over the lists of variants, the slots and the base names that the
//! contracts of the library speak of.

use vstd::prelude::*;

use crate::hooks::{Acmd, AcmdHook, AcmdScript};
use crate::installer::{command_of, dispatched, ticked, Instance};
use crate::names::{hash40_of, lemma_base_of_script_name, recorded, script_name_of};
use crate::registry::{
    blank, distinct_colors, fields_of, has_colors, holds_color, merged, merged_all, migrated,
    migrated_variant, one_empty_at_most, overrides_among, registered, registered_all, resolved,
    sets, Field, Place, Variant,
};
use crate::search::{
    first_index, is_first, is_last, last_index, lemma_first_index, lemma_first_index_some,
    lemma_last_index, lemma_last_index_some,
};
use crate::slots::{resolved_variant, SlotEntry};

verus! {

/// Merging fields never touches the color set or the legacy mask. Each
/// place of the variant ends up with the last field that was merged for it,
/// or keeps what it held where none was; the status overrides that were
/// merged follow those that were there, in order.
pub proof fn lemma_merged_all(variant: Variant, fields: Seq<Field>)
    ensures
        merged_all(variant, fields).color_set == variant.color_set,
        merged_all(variant, fields).legacy_color_mask == variant.legacy_color_mask,
        merged_all(variant, fields).status_overrides == variant.status_overrides
            + overrides_among(fields),
        forall|place: Place| #[trigger]
            merged_all(variant, fields).held_at(place) == match last_index(fields, sets(place)) {
                Some(i) => Some(fields[i]),
                None => variant.held_at(place),
            },
    decreases fields.len(),
{
    let all = merged_all(variant, fields);
    if fields.len() == 0 {
        assert(all.status_overrides =~= variant.status_overrides + overrides_among(fields));
        assert forall|place: Place| #[trigger]
            all.held_at(place) == match last_index(fields, sets(place)) {
                Some(i) => Some(fields[i]),
                None => variant.held_at(place),
            } by {
            lemma_last_index(fields, sets(place));
        }
    } else {
        let front = fields.drop_last();
        let last = fields.last();
        let before = merged_all(variant, front);
        lemma_merged_all(variant, front);
        assert(all == merged(before, last));
        assert(all.status_overrides =~= variant.status_overrides + overrides_among(fields));
        assert forall|place: Place| #[trigger]
            all.held_at(place) == match last_index(fields, sets(place)) {
                Some(i) => Some(fields[i]),
                None => variant.held_at(place),
            } by {
            let p = sets(place);
            if p(last) {
                assert(is_last(fields, p, fields.len() - 1));
                lemma_last_index_some(fields, p, fields.len() - 1);
            } else {
                assert(all.held_at(place) == before.held_at(place));
                lemma_last_index(front, p);
                match last_index(front, p) {
                    Some(i) => {
                        assert forall|j: int| i < j < fields.len() implies !p(
                            #[trigger] fields[j],
                        ) by {
                            if j < front.len() {
                                assert(!p(front[j]));
                            }
                        }
                        assert(is_last(fields, p, i));
                        lemma_last_index_some(fields, p, i);
                    },
                    None => {
                        assert forall|j: int| 0 <= j < fields.len() implies !p(
                            #[trigger] fields[j],
                        ) by {
                            if j < front.len() {
                                assert(!p(front[j]));
                            }
                        }
                        lemma_last_index(fields, p);
                    },
                }
            }
        }
    }
}

/// Where the variant for a color set stands after a registration for it:
/// where it stood, or at the end of the list if it is new.
pub open spec fn place_of(list: Seq<Variant>, color_set: Seq<i32>) -> int {
    match first_index(list, has_colors(color_set)) {
        Some(i) => i,
        None => list.len() as int,
    }
}

/// One registration leaves every other variant as it was, and the variant
/// it went to is the first with its color set.
pub proof fn lemma_registered(
    list: Seq<Variant>,
    color_set: Seq<i32>,
    mask: Option<Seq<bool>>,
    field: Field,
)
    ensures
        first_index(registered(list, color_set, mask, field), has_colors(color_set)) == Some(
            place_of(list, color_set),
        ),
        registered(list, color_set, mask, field).len() == if first_index(
            list,
            has_colors(color_set),
        ) is Some {
            list.len()
        } else {
            list.len() + 1
        },
        forall|j: int|
            0 <= j < list.len() && j != place_of(list, color_set) ==> #[trigger] registered(
                list,
                color_set,
                mask,
                field,
            )[j] == list[j],
        registered(list, color_set, mask, field)[place_of(list, color_set)].color_set
            == color_set,
{
    let p = has_colors(color_set);
    let after = registered(list, color_set, mask, field);
    let at = place_of(list, color_set);
    lemma_first_index(list, p);
    assert(p(after[at]));
    assert forall|j: int| 0 <= j < at implies !p(#[trigger] after[j]) by {
        assert(after[j] == list[j]);
        assert(!p(list[j]));
    }
    assert(is_first(after, p, at));
    lemma_first_index_some(after, p, at);
}

/// Any number of registrations for one color set, at least one, go to one
/// and the same variant: the first that had the color set, or one new
/// variant at the end of the list, which keeps the mask that the first
/// registration came with. That variant holds all the fields that were
/// registered, merged in order; the other variants are as they were.
pub proof fn lemma_registered_all(
    list: Seq<Variant>,
    color_set: Seq<i32>,
    calls: Seq<(Option<Seq<bool>>, Field)>,
)
    requires
        calls.len() > 0,
    ensures
        registered_all(list, color_set, calls) == match first_index(list, has_colors(color_set)) {
            Some(i) => list.update(i, merged_all(list[i], fields_of(calls))),
            None => list.push(merged_all(blank(color_set, calls[0].0), fields_of(calls))),
        },
    decreases calls.len(),
{
    let p = has_colors(color_set);
    let front = calls.drop_last();
    let last = calls.last().1;
    let fields = fields_of(calls);
    let before = registered_all(list, color_set, front);
    let after = registered_all(list, color_set, calls);
    let start = match first_index(list, p) {
        Some(i) => list[i],
        None => blank(color_set, calls[0].0),
    };
    assert(fields.drop_last() == fields_of(front));
    assert(fields.last() == last);
    assert(merged_all(start, fields) == merged(merged_all(start, fields_of(front)), last));
    assert(after == registered(before, color_set, calls.last().0, last));
    if front.len() == 0 {
        assert(before == list);
        assert(merged_all(start, fields_of(front)) == start);
    } else {
        lemma_registered_all(list, color_set, front);
        lemma_first_index(list, p);
        let at = place_of(list, color_set);
        assert(front[0] == calls[0]);
        lemma_merged_all(start, fields_of(front));
        assert(before[at] == merged_all(start, fields_of(front)));
        assert(p(before[at]));
        assert forall|j: int| 0 <= j < at implies !p(#[trigger] before[j]) by {
            assert(before[j] == list[j]);
            assert(!p(list[j]));
        }
        assert(is_first(before, p, at));
        lemma_first_index_some(before, p, at);
        assert(after == before.update(at, merged(before[at], last)));
        match first_index(list, p) {
            Some(i) => {
                assert(after =~= list.update(i, merged_all(list[i], fields)));
            },
            None => {
                assert(after =~= list.push(merged_all(start, fields)));
            },
        }
    }
}

/// For a kind that nothing was registered for, any number of registrations
/// for one color set, at least one, leave exactly one variant: it has that
/// color set, and each of its places holds the last field that was
/// registered for it.
pub proof fn lemma_one_record_per_color_set(
    color_set: Seq<i32>,
    calls: Seq<(Option<Seq<bool>>, Field)>,
)
    requires
        calls.len() > 0,
    ensures
        registered_all(Seq::empty(), color_set, calls).len() == 1,
        registered_all(Seq::empty(), color_set, calls)[0] == merged_all(
            blank(color_set, calls[0].0),
            fields_of(calls),
        ),
        registered_all(Seq::empty(), color_set, calls)[0].color_set == color_set,
        forall|place: Place| #[trigger]
            registered_all(Seq::empty(), color_set, calls)[0].held_at(place) == match last_index(
                fields_of(calls),
                sets(place),
            ) {
                Some(i) => Some(calls[i].1),
                None => None,
            },
{
    let list = Seq::<Variant>::empty();
    let start = blank(color_set, calls[0].0);
    lemma_registered_all(list, color_set, calls);
    lemma_first_index(list, has_colors(color_set));
    lemma_merged_all(start, fields_of(calls));
    assert forall|place: Place| #[trigger]
        registered_all(list, color_set, calls)[0].held_at(place) == match last_index(
            fields_of(calls),
            sets(place),
        ) {
            Some(i) => Some(calls[i].1),
            None => None,
        } by {
        lemma_last_index(fields_of(calls), sets(place));
        assert(start.held_at(place) is None);
    }
}

/// A registration never gives two variants the same color set.
pub proof fn lemma_registered_distinct(
    list: Seq<Variant>,
    color_set: Seq<i32>,
    mask: Option<Seq<bool>>,
    field: Field,
)
    requires
        distinct_colors(list),
    ensures
        distinct_colors(registered(list, color_set, mask, field)),
{
    let p = has_colors(color_set);
    let after = registered(list, color_set, mask, field);
    lemma_first_index(list, p);
    assert forall|i: int, j: int| 0 <= i < j < after.len() implies (#[trigger] after[i]).color_set
        != (#[trigger] after[j]).color_set by {
        match first_index(list, p) {
            Some(at) => {
                assert(after[i].color_set == list[i].color_set);
                assert(after[j].color_set == list[j].color_set);
            },
            None => {
                if j < list.len() {
                    assert(after[i] == list[i] && after[j] == list[j]);
                } else {
                    assert(after[i] == list[i]);
                    assert(!p(list[i]));
                }
            },
        }
    }
}

/// A registration never leads to a second variant with an empty color set.
pub proof fn lemma_registered_one_empty(
    list: Seq<Variant>,
    color_set: Seq<i32>,
    mask: Option<Seq<bool>>,
    field: Field,
)
    requires
        one_empty_at_most(list),
    ensures
        one_empty_at_most(registered(list, color_set, mask, field)),
{
    let p = has_colors(color_set);
    let after = registered(list, color_set, mask, field);
    lemma_first_index(list, p);
    assert forall|i: int, j: int| 0 <= i < j < after.len() implies (#[trigger] after[i]).color_set.len()
        > 0 || (#[trigger] after[j]).color_set.len() > 0 by {
        match first_index(list, p) {
            Some(at) => {
                assert(after[i].color_set == list[i].color_set);
                assert(after[j].color_set == list[j].color_set);
            },
            None => {
                if j < list.len() {
                    assert(after[i] == list[i] && after[j] == list[j]);
                } else {
                    assert(after[i] == list[i]);
                    assert(!p(list[i]));
                    if after[i].color_set.len() == 0 && after[j].color_set.len() == 0 {
                        assert(list[i].color_set =~= color_set);
                    }
                }
            },
        }
    }
}

/// The conversion of legacy masks never leads to a second variant with an
/// empty color set.
pub proof fn lemma_migrated_one_empty(list: Seq<Variant>)
    requires
        one_empty_at_most(list),
    ensures
        one_empty_at_most(migrated(list)),
{
    let moved = migrated(list);
    assert forall|i: int, j: int| 0 <= i < j < moved.len() implies (#[trigger] moved[i]).color_set.len()
        > 0 || (#[trigger] moved[j]).color_set.len() > 0 by {
        assert(moved[i] == migrated_variant(list[i]));
        assert(moved[j] == migrated_variant(list[j]));
        assert(list[i].color_set.len() > 0 || list[j].color_set.len() > 0);
    }
}

/// Of two color sets that share a color id and are registered one after
/// the other, the first is the one that the id selects, provided that no
/// variant registered before them holds the id.
pub proof fn lemma_first_registered_wins(
    list: Seq<Variant>,
    first: Seq<i32>,
    first_mask: Option<Seq<bool>>,
    first_field: Field,
    second: Seq<i32>,
    second_mask: Option<Seq<bool>>,
    second_field: Field,
    id: i32,
)
    requires
        first.contains(id),
        second.contains(id),
        forall|j: int| 0 <= j < list.len() ==> !(#[trigger] list[j]).color_set.contains(id),
    ensures
        ({
            let once = registered(list, first, first_mask, first_field);
            let twice = registered(once, second, second_mask, second_field);
            &&& resolved(twice, id) == Some(list.len() as int)
            &&& first_index(twice, has_colors(first)) == Some(list.len() as int)
            &&& twice[list.len() as int].color_set == first
        }),
{
    let once = registered(list, first, first_mask, first_field);
    let twice = registered(once, second, second_mask, second_field);
    let at = list.len() as int;
    lemma_first_index(list, has_colors(first));
    assert(first_index(list, has_colors(first)) is None) by {
        if first_index(list, has_colors(first)) is Some {
            let i = first_index(list, has_colors(first))->0;
            assert(list[i].color_set.contains(id));
        }
    }
    assert(once == list.push(merged(blank(first, first_mask), first_field)));
    assert(once[at].color_set == first);
    lemma_registered(once, second, second_mask, second_field);
    lemma_first_index(once, has_colors(second));
    assert(twice[at].color_set == first) by {
        match first_index(once, has_colors(second)) {
            Some(i) => {
                if i != at {
                    assert(once[i] == list[i]);
                    assert(list[i].color_set.contains(id));
                }
            },
            None => {},
        }
    }
    assert forall|j: int| 0 <= j < at implies !holds_color(id)(#[trigger] twice[j]) by {
        assert(twice[j].color_set == once[j].color_set);
        assert(once[j] == list[j]);
    }
    assert(holds_color(id)(twice[at]));
    assert(is_first(twice, holds_color(id), at));
    lemma_first_index_some(twice, holds_color(id), at);
    assert forall|j: int| 0 <= j < at implies !has_colors(first)(#[trigger] twice[j]) by {
        assert(twice[j].color_set == once[j].color_set);
        assert(once[j] == list[j]);
        assert(!list[j].color_set.contains(id));
    }
    assert(is_first(twice, has_colors(first), at));
    lemma_first_index_some(twice, has_colors(first), at);
}

/// Converting the legacy masks a second time changes nothing: no variant and
/// no color set differs from what the first conversion left.
pub proof fn lemma_migration_idempotent(list: Seq<Variant>)
    ensures
        migrated(migrated(list)) == migrated(list),
        forall|i: int|
            0 <= i < list.len() ==> (#[trigger] migrated(migrated(list))[i]).color_set == migrated(
                list,
            )[i].color_set,
{
    assert(migrated(migrated(list)) =~= migrated(list));
}

/// A command that was registered is the one that is played: once the command
/// of `category` with base name `base` is registered for a color set, the
/// hub of that category finds its routine for every instance that follows
/// the variant of that color set, while the animation with that base name
/// runs. The base-name index must not hold another base name under the hash
/// of the animation, as the first base name recorded under a hash stays.
pub proof fn lemma_registered_command_is_played(
    list: Seq<Variant>,
    names: Map<u64, Seq<char>>,
    slots: Seq<SlotEntry>,
    color_set: Seq<i32>,
    mask: Option<Seq<bool>>,
    category: Acmd,
    base: Seq<char>,
    function: AcmdHook,
    instance: Instance,
    variant: usize,
)
    requires
        resolved_variant(slots, instance.slot_id()) == Some(variant),
        variant == place_of(list, color_set),
        names.contains_key(hash40_of(script_name_of(Acmd::Game, base))) ==> names[hash40_of(
            script_name_of(Acmd::Game, base),
        )] == base,
    ensures
        dispatched(
            registered(
                list,
                color_set,
                mask,
                Field::Command(
                    hash40_of(script_name_of(category, base)),
                    AcmdScript { category, function },
                ),
            ),
            recorded(names, script_name_of(category, base)),
            slots,
            instance,
            hash40_of(script_name_of(Acmd::Game, base)),
            category,
        ) == Some(function),
{
    let name = script_name_of(category, base);
    let field = Field::Command(hash40_of(name), AcmdScript { category, function });
    let after = registered(list, color_set, mask, field);
    lemma_base_of_script_name(category, base);
    lemma_registered(list, color_set, mask, field);
    lemma_first_index(list, has_colors(color_set));
    assert(after[variant as int].commands.contains_key(hash40_of(name)));
}

/// A fighter looks for its variant once in its life: a slot that has looked
/// stays as it is on every later frame, whatever was registered since and
/// whatever color the fighter shows.
pub proof fn lemma_resolved_once(
    list: Seq<Variant>,
    color: i32,
    later_list: Seq<Variant>,
    later_color: i32,
    entry: SlotEntry,
)
    ensures
        ticked(list, entry, color).initialized,
        ticked(later_list, ticked(list, entry, color), later_color) == ticked(list, entry, color),
{
}

/// A weapon whose owner has resolved plays, for every command, what the
/// variant at the owner's position in the weapon kind's own list holds: the
/// same as a fighter in the owner's slot would be given from that list. A
/// weapon kind without a variant at that position plays nothing.
pub proof fn lemma_weapon_follows_owner(
    list: Seq<Variant>,
    names: Map<u64, Seq<char>>,
    slots: Seq<SlotEntry>,
    owner_entry_id: i32,
    variant: usize,
    game_hash: u64,
    category: Acmd,
)
    requires
        resolved_variant(slots, owner_entry_id) == Some(variant),
    ensures
        dispatched(list, names, slots, Instance::Weapon { owner_entry_id }, game_hash, category)
            == dispatched(
            list,
            names,
            slots,
            Instance::Fighter { entry_id: owner_entry_id },
            game_hash,
            category,
        ),
        dispatched(list, names, slots, Instance::Weapon { owner_entry_id }, game_hash, category)
            == if names.contains_key(game_hash) && variant < list.len() {
            command_of(
                list[variant as int],
                hash40_of(script_name_of(category, names[game_hash])),
            )
        } else {
            None
        },
{
}

} // verus!
