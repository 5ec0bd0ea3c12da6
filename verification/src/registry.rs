//! The variant registry: for every entity kind, the ordered list of its
//! variant records.
//!
//! A registration names a kind, a color set and one field. Within the
//! kind's list it is merged into the first record with the same color set;
//! where there is none, a new record is appended. A color id resolves to
//! the first record whose color set holds it, so the order of registration
//! decides between variants that overlap.

use std::collections::HashMap;
use vstd::prelude::*;

use crate::color::{colors_of_mask, contains, mask_colors, same_colors};
use crate::hooks::{AcmdScript, LineHook, StateHook, StatusScript};
use crate::laws::{
    lemma_migrated_one_empty, lemma_migration_idempotent, lemma_registered_one_empty,
};
use crate::search::{first_index, is_first, lemma_first_index_none, lemma_first_index_some};

verus! {

/// One variant of an entity kind, as the registry stores it.
pub struct VariantRecord {
    /// The color ids that select this variant.
    pub color_set: Vec<i32>,
    /// The legacy mask the color set is still to be taken from.
    pub legacy_color_mask: Option<[bool; 256]>,
    /// Runs every frame for an instance of this variant.
    pub frame_hook: Option<LineHook>,
    /// Runs when an instance of the kind starts.
    pub start_hook: Option<StateHook>,
    /// The commands of this variant, by the hash of their names.
    pub commands: HashMap<u64, AcmdScript>,
    /// The status lines this variant overrides, in the order they were
    /// registered.
    pub status_overrides: Vec<StatusScript>,
}

/// What a variant record holds.
#[verifier::ext_equal]
pub struct Variant {
    pub color_set: Seq<i32>,
    pub legacy_color_mask: Option<Seq<bool>>,
    pub frame_hook: Option<LineHook>,
    pub start_hook: Option<StateHook>,
    pub commands: Map<u64, AcmdScript>,
    pub status_overrides: Seq<StatusScript>,
}

/// The one thing that a registration sets or adds.
#[derive(Clone, Copy, PartialEq, Eq, Structural, Debug)]
pub enum Field {
    /// Sets the frame hook; an earlier one is replaced.
    FrameHook(LineHook),
    /// Sets the start hook; an earlier one is replaced.
    StartHook(StateHook),
    /// Enters a command under the hash of its name; an earlier command
    /// under the same hash is replaced.
    Command(u64, AcmdScript),
    /// Adds a status override behind those that are there.
    StatusOverride(StatusScript),
}

/// What a legacy mask holds, if there is one.
pub open spec fn mask_view(mask: Option<[bool; 256]>) -> Option<Seq<bool>> {
    match mask {
        Some(flags) => Some(flags@),
        None => None,
    }
}

impl View for VariantRecord {
    type V = Variant;

    open spec fn view(&self) -> Variant {
        Variant {
            color_set: self.color_set@,
            legacy_color_mask: mask_view(self.legacy_color_mask),
            frame_hook: self.frame_hook,
            start_hook: self.start_hook,
            commands: self.commands@,
            status_overrides: self.status_overrides@,
        }
    }
}

/// What a list of records holds.
pub open spec fn variants_of(records: Seq<VariantRecord>) -> Seq<Variant> {
    records.map_values(|record: VariantRecord| record@)
}

/// A variant with a color set and nothing else.
pub open spec fn blank(color_set: Seq<i32>, mask: Option<Seq<bool>>) -> Variant {
    Variant {
        color_set,
        legacy_color_mask: mask,
        frame_hook: None,
        start_hook: None,
        commands: Map::empty(),
        status_overrides: Seq::empty(),
    }
}

/// A variant after `field` was merged into it.
pub open spec fn merged(variant: Variant, field: Field) -> Variant {
    match field {
        Field::FrameHook(hook) => Variant { frame_hook: Some(hook), ..variant },
        Field::StartHook(hook) => Variant { start_hook: Some(hook), ..variant },
        Field::Command(hash, script) => Variant {
            commands: variant.commands.insert(hash, script),
            ..variant
        },
        Field::StatusOverride(script) => Variant {
            status_overrides: variant.status_overrides.push(script),
            ..variant
        },
    }
}

/// The places of a variant that a registration sets, each holding the last
/// field that was registered for it. Status overrides have no place of their
/// own: every one of them stays.
#[derive(Clone, Copy, PartialEq, Eq, Structural, Debug)]
pub enum Place {
    FrameHook,
    StartHook,
    Command(u64),
}

impl Field {
    /// The place that the field sets; none for a status override.
    pub open spec fn place(self) -> Option<Place> {
        match self {
            Field::FrameHook(_) => Some(Place::FrameHook),
            Field::StartHook(_) => Some(Place::StartHook),
            Field::Command(hash, _) => Some(Place::Command(hash)),
            Field::StatusOverride(_) => None,
        }
    }
}

/// Holds of the fields that set `place`.
pub open spec fn sets(place: Place) -> spec_fn(Field) -> bool {
    |field: Field| field.place() == Some(place)
}

impl Variant {
    /// The field that `place` holds, if it was set.
    pub open spec fn held_at(self, place: Place) -> Option<Field> {
        match place {
            Place::FrameHook => match self.frame_hook {
                Some(hook) => Some(Field::FrameHook(hook)),
                None => None,
            },
            Place::StartHook => match self.start_hook {
                Some(hook) => Some(Field::StartHook(hook)),
                None => None,
            },
            Place::Command(hash) => if self.commands.contains_key(hash) {
                Some(Field::Command(hash, self.commands[hash]))
            } else {
                None
            },
        }
    }
}

/// A variant after each of `fields` was merged into it, in order.
pub open spec fn merged_all(variant: Variant, fields: Seq<Field>) -> Variant
    decreases fields.len(),
{
    if fields.len() == 0 {
        variant
    } else {
        merged(merged_all(variant, fields.drop_last()), fields.last())
    }
}

/// The status overrides among `fields`, in order.
pub open spec fn overrides_among(fields: Seq<Field>) -> Seq<StatusScript>
    decreases fields.len(),
{
    if fields.len() == 0 {
        Seq::empty()
    } else {
        match fields.last() {
            Field::StatusOverride(script) => overrides_among(fields.drop_last()).push(script),
            _ => overrides_among(fields.drop_last()),
        }
    }
}

/// The fields of a sequence of registrations, each given as the mask and the
/// field that it came with.
pub open spec fn fields_of(calls: Seq<(Option<Seq<bool>>, Field)>) -> Seq<Field> {
    calls.map_values(|call: (Option<Seq<bool>>, Field)| call.1)
}

/// A kind's list after each of `calls` was registered for the same color
/// set, in order.
pub open spec fn registered_all(
    list: Seq<Variant>,
    color_set: Seq<i32>,
    calls: Seq<(Option<Seq<bool>>, Field)>,
) -> Seq<Variant>
    decreases calls.len(),
{
    if calls.len() == 0 {
        list
    } else {
        registered(
            registered_all(list, color_set, calls.drop_last()),
            color_set,
            calls.last().0,
            calls.last().1,
        )
    }
}

/// No two variants of the list have the same color set.
pub open spec fn distinct_colors(list: Seq<Variant>) -> bool {
    forall|i: int, j: int|
        0 <= i < j < list.len() ==> (#[trigger] list[i]).color_set != (#[trigger] list[j]).color_set
}

/// At most one variant of the list has an empty color set.
pub open spec fn one_empty_at_most(list: Seq<Variant>) -> bool {
    forall|i: int, j: int|
        0 <= i < j < list.len() ==> (#[trigger] list[i]).color_set.len() > 0 || (
        #[trigger] list[j]).color_set.len() > 0
}

/// Holds of the variants whose color set is exactly `color_set`.
pub open spec fn has_colors(color_set: Seq<i32>) -> spec_fn(Variant) -> bool {
    |variant: Variant| variant.color_set == color_set
}

/// Holds of the variants whose color set holds `id`.
pub open spec fn holds_color(id: i32) -> spec_fn(Variant) -> bool {
    |variant: Variant| variant.color_set.contains(id)
}

/// A kind's list after one registration: `field` is merged into the first
/// variant with color set `color_set`; where there is none, a new variant
/// with that color set, the mask and the field is appended.
pub open spec fn registered(
    list: Seq<Variant>,
    color_set: Seq<i32>,
    mask: Option<Seq<bool>>,
    field: Field,
) -> Seq<Variant> {
    match first_index(list, has_colors(color_set)) {
        Some(i) => list.update(i, merged(list[i], field)),
        None => list.push(merged(blank(color_set, mask), field)),
    }
}

/// The position of the variant that color `id` selects: the first one, in
/// registration order, whose color set holds `id`.
pub open spec fn resolved(list: Seq<Variant>, id: i32) -> Option<int> {
    first_index(list, holds_color(id))
}

/// A variant after the conversion of legacy masks: one that carries a mask
/// and has an empty color set takes the colors of the mask and gives the
/// mask up; any other stays as it is.
pub open spec fn migrated_variant(variant: Variant) -> Variant {
    match variant.legacy_color_mask {
        Some(mask) if variant.color_set.len() == 0 => Variant {
            color_set: mask_colors(mask),
            legacy_color_mask: None,
            ..variant
        },
        _ => variant,
    }
}

/// A kind's list after the conversion of legacy masks.
pub open spec fn migrated(list: Seq<Variant>) -> Seq<Variant> {
    list.map_values(|variant: Variant| migrated_variant(variant))
}

/// The start hooks of a kind's variants, in registration order.
pub open spec fn start_hooks_of(list: Seq<Variant>) -> Seq<StateHook>
    decreases list.len(),
{
    if list.len() == 0 {
        Seq::empty()
    } else {
        match list.last().start_hook {
            Some(hook) => start_hooks_of(list.drop_last()).push(hook),
            None => start_hooks_of(list.drop_last()),
        }
    }
}

/// The color set of the variant that color `id` selects; empty where it
/// selects none.
pub open spec fn colors_for(list: Seq<Variant>, id: i32) -> Seq<i32> {
    match resolved(list, id) {
        Some(i) => list[i].color_set,
        None => Seq::empty(),
    }
}

impl VariantRecord {
    /// A record with a color set and nothing else.
    pub fn blank(color_set: Vec<i32>, mask: Option<[bool; 256]>) -> (record: Self)
        ensures
            record@ == blank(color_set@, mask_view(mask)),
    {
        let record = VariantRecord {
            color_set,
            legacy_color_mask: mask,
            frame_hook: None,
            start_hook: None,
            commands: HashMap::new(),
            status_overrides: Vec::new(),
        };
        assert(record@ =~= blank(color_set@, mask_view(mask)));
        record
    }

    /// Merges `field` into the record.
    pub fn merge(&mut self, field: Field)
        ensures
            final(self)@ == merged(old(self)@, field),
    {
        match field {
            Field::FrameHook(hook) => {
                self.frame_hook = Some(hook);
            },
            Field::StartHook(hook) => {
                self.start_hook = Some(hook);
            },
            Field::Command(hash, script) => {
                self.commands.insert(hash, script);
            },
            Field::StatusOverride(script) => {
                self.status_overrides.push(script);
            },
        }
        assert(self@ =~= merged(old(self)@, field));
    }

    /// Converts the legacy mask of the record, if it has one and its color
    /// set is empty.
    pub fn migrate(&mut self)
        ensures
            final(self)@ == migrated_variant(old(self)@),
    {
        if self.color_set.len() == 0 {
            match self.legacy_color_mask {
                Some(mask) => {
                    self.color_set = colors_of_mask(&mask);
                    self.legacy_color_mask = None;
                },
                None => {},
            }
        }
        assert(self@ =~= migrated_variant(old(self)@));
    }
}

/// Converts the legacy masks of a list of records.
fn migrate_records(records: &mut Vec<VariantRecord>)
    ensures
        variants_of(final(records)@) == migrated(variants_of(old(records)@)),
{
    let ghost before = variants_of(records@);
    let mut i: usize = 0;
    while i < records.len()
        invariant
            i <= records.len(),
            records.len() == before.len(),
            forall|j: int| 0 <= j < i ==> (#[trigger] records@[j])@ == migrated_variant(before[j]),
            forall|j: int| i <= j < records.len() ==> (#[trigger] records@[j])@ == before[j],
        decreases records.len() - i,
    {
        let record = &mut records[i];
        record.migrate();
        i += 1;
    }
    assert(variants_of(records@) =~= migrated(before));
}

/// The position of the first record with color set `color_set`.
fn position_of(records: &Vec<VariantRecord>, color_set: &Vec<i32>) -> (position: Option<usize>)
    ensures
        match position {
            Some(i) => i < records.len() && first_index(
                variants_of(records@),
                has_colors(color_set@),
            ) == Some(i as int),
            None => first_index(variants_of(records@), has_colors(color_set@)) is None,
        },
{
    let ghost list = variants_of(records@);
    let ghost same = has_colors(color_set@);
    let mut i: usize = 0;
    while i < records.len()
        invariant
            i <= records.len(),
            list == variants_of(records@),
            same == has_colors(color_set@),
            forall|j: int| 0 <= j < i ==> !same(#[trigger] list[j]),
        decreases records.len() - i,
    {
        if same_colors(&records[i].color_set, color_set) {
            proof {
                assert(is_first(list, same, i as int));
                lemma_first_index_some(list, same, i as int);
            }
            return Some(i);
        }
        i += 1;
    }
    proof {
        lemma_first_index_none(list, same);
    }
    None
}

/// The position of the first record whose color set holds `id`.
fn position_holding(records: &Vec<VariantRecord>, id: i32) -> (position: Option<usize>)
    ensures
        match position {
            Some(i) => i < records.len() && resolved(variants_of(records@), id) == Some(i as int),
            None => resolved(variants_of(records@), id) is None,
        },
{
    let ghost list = variants_of(records@);
    let ghost holds = holds_color(id);
    let mut i: usize = 0;
    while i < records.len()
        invariant
            i <= records.len(),
            list == variants_of(records@),
            holds == holds_color(id),
            forall|j: int| 0 <= j < i ==> !holds(#[trigger] list[j]),
        decreases records.len() - i,
    {
        if contains(&records[i].color_set, id) {
            proof {
                assert(is_first(list, holds, i as int));
                lemma_first_index_some(list, holds, i as int);
            }
            return Some(i);
        }
        i += 1;
    }
    proof {
        lemma_first_index_none(list, holds);
    }
    None
}

/// The variant records of every entity kind, with the mark that says
/// whether the legacy masks were converted.
pub struct Registry {
    agents: HashMap<u64, Vec<VariantRecord>>,
    converted: bool,
}

impl Registry {
    /// The variants of `kind` in registration order; none for a kind that
    /// nothing was registered for.
    pub closed spec fn variants(&self, kind: u64) -> Seq<Variant> {
        if self.agents@.contains_key(kind) {
            variants_of(self.agents@[kind]@)
        } else {
            Seq::empty()
        }
    }

    /// Whether the legacy masks were converted.
    pub closed spec fn is_migrated(&self) -> bool {
        self.converted
    }

    /// No kind has two variants with an empty color set. This holds of a
    /// new registry, and no registration and no conversion ends it.
    pub open spec fn well_formed(&self) -> bool {
        forall|kind: u64| one_empty_at_most(#[trigger] self.variants(kind))
    }

    /// A registry without records, its legacy masks not yet converted.
    pub fn new() -> (registry: Self)
        ensures
            !registry.is_migrated(),
            forall|kind: u64| registry.variants(kind) == Seq::<Variant>::empty(),
            registry.well_formed(),
    {
        Registry { agents: HashMap::new(), converted: false }
    }

    /// Registers `field` for the variant of `kind` with color set
    /// `color_set`. The mask is kept only where the registration creates the
    /// record.
    pub fn register(
        &mut self,
        kind: u64,
        color_set: &Vec<i32>,
        mask: Option<[bool; 256]>,
        field: Field,
    )
        ensures
            final(self).variants(kind) == registered(
                old(self).variants(kind),
                color_set@,
                mask_view(mask),
                field,
            ),
            forall|other: u64|
                other != kind ==> final(self).variants(other) == old(self).variants(other),
            final(self).is_migrated() == old(self).is_migrated(),
            old(self).well_formed() ==> final(self).well_formed(),
    {
        let mut records = match self.agents.remove(&kind) {
            Some(records) => records,
            None => Vec::new(),
        };
        assert(variants_of(records@) =~= old(self).variants(kind));
        match position_of(&records, color_set) {
            Some(i) => {
                let record = &mut records[i];
                record.merge(field);
            },
            None => {
                let mut record = VariantRecord::blank(color_set.clone(), mask);
                record.merge(field);
                records.push(record);
            },
        }
        assert(variants_of(records@) =~= registered(
            old(self).variants(kind),
            color_set@,
            mask_view(mask),
            field,
        ));
        self.agents.insert(kind, records);
        assert forall|other: u64| other != kind implies self.variants(other) == old(
            self,
        ).variants(other) by {}
        assert(old(self).well_formed() ==> self.well_formed()) by {
            if old(self).well_formed() {
                assert forall|any: u64| one_empty_at_most(#[trigger] self.variants(any)) by {
                    assert(one_empty_at_most(old(self).variants(any)));
                    if any == kind {
                        lemma_registered_one_empty(
                            old(self).variants(kind),
                            color_set@,
                            mask_view(mask),
                            field,
                        );
                    }
                }
            }
        }
    }

    /// The position of the first variant of `kind` whose color set is
    /// exactly `color_set`.
    pub fn find(&self, kind: u64, color_set: &Vec<i32>) -> (position: Option<usize>)
        ensures
            match position {
                Some(i) => i < self.variants(kind).len() && first_index(
                    self.variants(kind),
                    has_colors(color_set@),
                ) == Some(i as int),
                None => first_index(self.variants(kind), has_colors(color_set@)) is None,
            },
    {
        match self.agents.get(&kind) {
            Some(records) => position_of(records, color_set),
            None => {
                proof {
                    lemma_first_index_none(self.variants(kind), has_colors(color_set@));
                }
                None
            },
        }
    }

    /// The position of the variant of `kind` that color `id` selects.
    pub fn resolve(&self, kind: u64, id: i32) -> (position: Option<usize>)
        ensures
            match position {
                Some(i) => i < self.variants(kind).len() && resolved(self.variants(kind), id)
                    == Some(i as int),
                None => resolved(self.variants(kind), id) is None,
            },
    {
        match self.agents.get(&kind) {
            Some(records) => position_holding(records, id),
            None => {
                proof {
                    lemma_first_index_none(self.variants(kind), holds_color(id));
                }
                None
            },
        }
    }

    /// The record of `kind` at `position`, if the kind has that many.
    pub fn variant(&self, kind: u64, position: usize) -> (record: Option<&VariantRecord>)
        ensures
            match record {
                Some(r) => position < self.variants(kind).len() && r@ == self.variants(
                    kind,
                )[position as int],
                None => position >= self.variants(kind).len(),
            },
    {
        match self.agents.get(&kind) {
            Some(records) => {
                if position < records.len() {
                    Some(&records[position])
                } else {
                    None
                }
            },
            None => None,
        }
    }

    /// The kinds that have a list, in no particular order.
    fn kinds(&self) -> (kinds: Vec<u64>)
        ensures
            kinds@.to_set() == self.agents@.dom(),
    {
        let mut kinds: Vec<u64> = Vec::new();
        for kind in it: self.agents.keys()
            invariant
                it.seq().unref().to_set() == self.agents@.dom(),
                kinds@ == it.seq().unref().take(it.index() as int),
                it.index() == it.seq().len() ==> kinds@.to_set() == self.agents@.dom(),
        {
            kinds.push(*kind);
            proof {
                let all = it.seq().unref();
                assert(all.take(it.index() + 1) == all.take(it.index() as int).push(*kind));
                assert(all.take(all.len() as int) == all);
            }
        }
        kinds
    }

    /// Converts the legacy masks of every kind, once: a registry that is
    /// marked as converted stays as it is.
    pub fn migrate(&mut self)
        ensures
            final(self).is_migrated(),
            forall|kind: u64| #[trigger]
                final(self).variants(kind) == if old(self).is_migrated() {
                    old(self).variants(kind)
                } else {
                    migrated(old(self).variants(kind))
                },
            old(self).well_formed() ==> final(self).well_formed(),
    {
        if self.converted {
            return ;
        }
        let kinds = self.kinds();
        let mut n: usize = 0;
        while n < kinds.len()
            invariant
                n <= kinds.len(),
                !self.converted,
                kinds@.to_set() == old(self).agents@.dom(),
                forall|kind: u64| #[trigger]
                    self.variants(kind) == if kinds@.take(n as int).contains(kind) {
                        migrated(old(self).variants(kind))
                    } else {
                        old(self).variants(kind)
                    },
            decreases kinds.len() - n,
        {
            let kind = kinds[n];
            let ghost before = *self;
            match self.agents.remove(&kind) {
                Some(mut records) => {
                    migrate_records(&mut records);
                    self.agents.insert(kind, records);
                },
                None => {},
            }
            proof {
                let done = kinds@.take(n as int);
                let next = kinds@.take(n + 1);
                assert(next == done.push(kind));
                lemma_migration_idempotent(old(self).variants(kind));
                assert forall|other: u64| #[trigger]
                    self.variants(other) == if kinds@.take(n + 1).contains(other) {
                        migrated(old(self).variants(other))
                    } else {
                        old(self).variants(other)
                    } by {
                    if other == kind {
                        assert(kinds@.take(n + 1)[n as int] == kind);
                        assert(self.variants(kind) =~= migrated(before.variants(kind)));
                    } else {
                        assert(self.variants(other) == before.variants(other));
                        if next.contains(other) {
                            let j = choose|j: int| 0 <= j < next.len() && next[j] == other;
                            assert(done[j] == other);
                        }
                    }
                }
            }
            n += 1;
        }
        let ghost done = *self;
        self.converted = true;
        proof {
            assert(kinds@.take(kinds@.len() as int) == kinds@);
            assert forall|kind: u64| #[trigger]
                self.variants(kind) == migrated(old(self).variants(kind)) by {
                assert(self.variants(kind) == done.variants(kind));
                if !kinds@.contains(kind) {
                    assert(!old(self).agents@.dom().contains(kind));
                    assert(migrated(old(self).variants(kind)) =~= old(self).variants(kind));
                }
            }
            if old(self).well_formed() {
                assert forall|kind: u64| one_empty_at_most(#[trigger] self.variants(kind)) by {
                    assert(one_empty_at_most(old(self).variants(kind)));
                    lemma_migrated_one_empty(old(self).variants(kind));
                }
            }
        }
    }

    /// The start hooks of the variants of `kind`, in registration order.
    pub fn start_hooks(&self, kind: u64) -> (hooks: Vec<StateHook>)
        ensures
            hooks@ == start_hooks_of(self.variants(kind)),
    {
        let mut hooks: Vec<StateHook> = Vec::new();
        match self.agents.get(&kind) {
            Some(records) => {
                let ghost list = variants_of(records@);
                let mut i: usize = 0;
                while i < records.len()
                    invariant
                        i <= records.len(),
                        list == variants_of(records@),
                        hooks@ == start_hooks_of(list.take(i as int)),
                    decreases records.len() - i,
                {
                    assert(list.take(i + 1).drop_last() == list.take(i as int));
                    match records[i].start_hook {
                        Some(hook) => {
                            hooks.push(hook);
                        },
                        None => {},
                    }
                    i += 1;
                }
                assert(list.take(list.len() as int) == list);
            },
            None => {},
        }
        hooks
    }

    /// Whether the legacy masks were converted.
    pub fn migrated(&self) -> (yes: bool)
        ensures
            yes == self.is_migrated(),
    {
        self.converted
    }

    /// How many variants `kind` has.
    pub fn variant_count(&self, kind: u64) -> (count: usize)
        ensures
            count == self.variants(kind).len(),
    {
        match self.agents.get(&kind) {
            Some(records) => records.len(),
            None => 0,
        }
    }
}

/// The color set of the variant of `kind` that color `color` selects;
/// empty where it selects none.
pub fn get_colors(registry: &Registry, kind: u64, color: i32) -> (colors: Vec<i32>)
    ensures
        colors@ == colors_for(registry.variants(kind), color),
{
    match registry.resolve(kind, color) {
        Some(i) => registry.variant(kind, i).unwrap().color_set.clone(),
        None => Vec::new(),
    }
}

} // verus!
