//! What the host's callbacks have to do.
//!
//! The host calls back when a fighter starts, on every frame of a fighter or
//! a weapon, when the installer script of a command category runs, when a
//! command is to be played, and before the first status of a weapon. Each
//! function here takes what such a callback has read from the host as plain
//! values and answers with what it has to do; running hooks and writing to
//! the host is left to the callback.
//!
//! A weapon has no variant of its own: it follows the variant that its
//! owner resolved to, by the owner's entry id.

use vstd::prelude::*;

use crate::hooks::{Acmd, AcmdHook, LineHook, StateHook, StatusLine, StatusScript};
use crate::names::{hash40, hash40_of, script_name, script_name_of, BaseNameIndex};
use crate::registry::{migrated, resolved, start_hooks_of, Registry, Variant, VariantRecord};
use crate::slots::{all_idle, resolved_variant, slot_at, SlotCache, SlotEntry};
use crate::suffix::{installer_hash, installer_name_of};

verus! {

/// The instance that a callback runs for, with the entry id that leads to
/// its slot: its own for a fighter, its owner's for a weapon.
#[derive(Clone, Copy, PartialEq, Eq, Structural, Debug)]
pub enum Instance {
    Fighter { entry_id: i32 },
    Weapon { owner_entry_id: i32 },
}

impl Instance {
    /// The entry id of the slot that decides for the instance.
    pub open spec fn slot_id(self) -> i32 {
        match self {
            Instance::Fighter { entry_id } => entry_id,
            Instance::Weapon { owner_entry_id } => owner_entry_id,
        }
    }

    /// The entry id of the slot that decides for the instance.
    pub fn slot(self) -> (id: i32)
        ensures
            id == self.slot_id(),
    {
        match self {
            Instance::Fighter { entry_id } => entry_id,
            Instance::Weapon { owner_entry_id } => owner_entry_id,
        }
    }

    /// Whether the instance is a fighter.
    pub fn is_fighter(self) -> (yes: bool)
        ensures
            yes == (self is Fighter),
    {
        match self {
            Instance::Fighter { .. } => true,
            Instance::Weapon { .. } => false,
        }
    }
}

/// The variant of a kind that the slot of entry id `id` points to: none
/// where the slot has resolved to nothing, where the id has no slot, and
/// where the kind has no variant at that position.
pub open spec fn live_variant(list: Seq<Variant>, slots: Seq<SlotEntry>, id: i32) -> Option<
    Variant,
> {
    match resolved_variant(slots, id) {
        Some(i) => if i < list.len() {
            Some(list[i as int])
        } else {
            None
        },
        None => None,
    }
}

/// The record of `kind` that the slot of entry id `id` points to.
pub fn live_record<'a>(registry: &'a Registry, slots: &SlotCache, kind: u64, id: i32) -> (record:
    Option<&'a VariantRecord>)
    ensures
        match record {
            Some(r) => live_variant(registry.variants(kind), slots@, id) == Some(r@),
            None => live_variant(registry.variants(kind), slots@, id) is None,
        },
{
    match slots.get(id) {
        Some(entry) => match entry.resolved_variant_index {
            Some(i) => registry.variant(kind, i),
            None => None,
        },
        None => None,
    }
}

/// A fighter starts: every slot is cleared, the legacy masks are converted
/// if they were not yet, and the start hooks of all variants of the
/// fighter's kind are handed back, in registration order, for the caller to
/// run. Which variant the fighter is plays no part: it is not known yet.
pub fn on_start(registry: &mut Registry, slots: &mut SlotCache, kind: u64) -> (hooks: Vec<
    StateHook,
>)
    ensures
        final(slots)@ == all_idle(old(slots)@.len()),
        final(registry).is_migrated(),
        forall|any: u64| #[trigger]
            final(registry).variants(any) == if old(registry).is_migrated() {
                old(registry).variants(any)
            } else {
                migrated(old(registry).variants(any))
            },
        hooks@ == start_hooks_of(final(registry).variants(kind)),
{
    slots.reset();
    registry.migrate();
    registry.start_hooks(kind)
}

/// What a fighter installs on the frame on which it resolves its variant.
pub struct Installation {
    /// The position of the variant, in the list of the fighter's kind.
    pub variant: usize,
    /// The status overrides of the variant, to be set in this order.
    pub status_overrides: Vec<StatusScript>,
}

/// What one frame of a fighter asks for.
pub struct FrameTick {
    /// Set on the frame on which the fighter found its variant: the caller
    /// runs the installer scripts and sets the status overrides.
    pub installation: Option<Installation>,
    /// The frame hook to run on this frame.
    pub frame_hook: Option<LineHook>,
}

/// The slot of a fighter of color `color` after a frame: a slot that has
/// looked for its variant stays; a fresh one takes the variant that the
/// color selects and its frame hook, or nothing, and counts as having
/// looked either way.
pub open spec fn ticked(list: Seq<Variant>, entry: SlotEntry, color: i32) -> SlotEntry {
    if entry.initialized {
        entry
    } else {
        match resolved(list, color) {
            Some(i) => SlotEntry {
                initialized: true,
                resolved_variant_index: Some(i as usize),
                resolved_frame_hook: list[i].frame_hook,
            },
            None => SlotEntry {
                initialized: true,
                resolved_variant_index: None,
                resolved_frame_hook: None,
            },
        }
    }
}

/// One frame of the fighter with entry id `entry_id` and color `color`.
///
/// On its first frame since the start the fighter looks for its variant,
/// once, whether it finds one or not. On every frame the frame hook it found
/// is handed back. An entry id without a slot asks for nothing.
pub fn opff(registry: &Registry, slots: &mut SlotCache, kind: u64, entry_id: i32, color: i32) -> (tick:
    FrameTick)
    ensures
        final(slots)@ == match slot_at(old(slots)@, entry_id) {
            Some(entry) => old(slots)@.update(
                entry_id as int,
                ticked(registry.variants(kind), entry, color),
            ),
            None => old(slots)@,
        },
        tick.frame_hook == match slot_at(final(slots)@, entry_id) {
            Some(entry) => entry.resolved_frame_hook,
            None => None,
        },
        match tick.installation {
            Some(installation) => {
                &&& slot_at(old(slots)@, entry_id) matches Some(entry)
                &&& !entry.initialized
                &&& resolved(registry.variants(kind), color) == Some(installation.variant as int)
                &&& installation.status_overrides@ == registry.variants(
                    kind,
                )[installation.variant as int].status_overrides
            },
            None => slot_at(old(slots)@, entry_id) matches Some(entry) ==> entry.initialized
                || resolved(registry.variants(kind), color) is None,
        },
{
    let entry = match slots.get(entry_id) {
        Some(entry) => entry,
        None => {
            return FrameTick { installation: None, frame_hook: None };
        },
    };
    if entry.initialized {
        assert(slots@ =~= old(slots)@.update(entry_id as int, entry));
        return FrameTick { installation: None, frame_hook: entry.resolved_frame_hook };
    }
    match registry.resolve(kind, color) {
        Some(i) => {
            let record = registry.variant(kind, i).unwrap();
            let frame_hook = record.frame_hook;
            slots.set(
                entry_id,
                SlotEntry {
                    initialized: true,
                    resolved_variant_index: Some(i),
                    resolved_frame_hook: frame_hook,
                },
            );
            let installation = Installation {
                variant: i,
                status_overrides: record.status_overrides.clone(),
            };
            FrameTick { installation: Some(installation), frame_hook }
        },
        None => {
            slots.set(
                entry_id,
                SlotEntry {
                    initialized: true,
                    resolved_variant_index: None,
                    resolved_frame_hook: None,
                },
            );
            FrameTick { installation: None, frame_hook: None }
        },
    }
}

/// The frame hook of a weapon of `kind` whose owner has entry id
/// `owner_entry_id`: that of the weapon kind's variant at the position the
/// owner resolved to. It is read anew on every frame, so a weapon whose
/// owner has not resolved yet has none for the time being.
pub fn weapon_opff(registry: &Registry, slots: &SlotCache, kind: u64, owner_entry_id: i32) -> (hook:
    Option<LineHook>)
    ensures
        hook == match live_variant(registry.variants(kind), slots@, owner_entry_id) {
            Some(variant) => variant.frame_hook,
            None => None,
        },
{
    match live_record(registry, slots, kind, owner_entry_id) {
        Some(record) => record.frame_hook,
        None => None,
    }
}

/// The command categories that an instance has installer scripts for: all
/// four for a fighter, all but expression for a weapon.
pub open spec fn installer_categories(fighter: bool) -> Seq<Acmd> {
    if fighter {
        seq![Acmd::Game, Acmd::Effect, Acmd::Sound, Acmd::Expression]
    } else {
        seq![Acmd::Game, Acmd::Effect, Acmd::Sound]
    }
}

/// The installer scripts that an instance has to run when it resolves its
/// variant: for each of its categories, in order, the hash of the script's
/// name under the suffix `suffix`.
pub fn install_slotted_acmds(fighter: bool, suffix: &str) -> (scripts: Vec<(Acmd, u64)>)
    ensures
        scripts@.len() == installer_categories(fighter).len(),
        forall|i: int|
            0 <= i < scripts@.len() ==> (#[trigger] scripts@[i]).0 == installer_categories(
                fighter,
            )[i] && scripts@[i].1 == hash40_of(
                installer_name_of(installer_categories(fighter)[i], suffix@),
            ),
{
    let mut scripts: Vec<(Acmd, u64)> = Vec::new();
    scripts.push((Acmd::Game, installer_hash(Acmd::Game, suffix)));
    scripts.push((Acmd::Effect, installer_hash(Acmd::Effect, suffix)));
    scripts.push((Acmd::Sound, installer_hash(Acmd::Sound, suffix)));
    if fighter {
        scripts.push((Acmd::Expression, installer_hash(Acmd::Expression, suffix)));
    }
    scripts
}

/// Holds of the override that takes the place of the default first line of
/// status kind 0.
pub open spec fn overrides_default_pre(script: StatusScript) -> bool {
    script.kind == 0 && script.line == StatusLine::Pre
}

/// Whether the default status handler is to be put back after the overrides
/// were set: it is, unless one of them overrides the `Pre` line of status
/// kind 0.
pub open spec fn restores_original(overrides: Seq<StatusScript>) -> bool {
    forall|i: int| 0 <= i < overrides.len() ==> !overrides_default_pre(#[trigger] overrides[i])
}

/// Whether the default status handler is to be put back after `statuses`
/// were set. Setting them, each in its turn, is the caller's part.
pub fn install_slotted_statuses(statuses: &Vec<StatusScript>) -> (restore_original: bool)
    ensures
        restore_original == restores_original(statuses@),
{
    let mut restore_original = true;
    let mut i: usize = 0;
    while i < statuses.len()
        invariant
            i <= statuses.len(),
            restore_original == restores_original(statuses@.take(i as int)),
        decreases statuses.len() - i,
    {
        let script = statuses[i];
        let ghost before = statuses@.take(i as int);
        let ghost after = statuses@.take(i + 1);
        proof {
            assert(after[i as int] == script);
            assert forall|j: int| 0 <= j < before.len() implies after[j] == before[j] by {}
            if !restores_original(before) {
                let j = choose|j: int|
                    0 <= j < before.len() && overrides_default_pre(#[trigger] before[j]);
                assert(overrides_default_pre(after[j]));
            }
        }
        if script.kind == 0 && script.line == StatusLine::Pre {
            restore_original = false;
        }
        i += 1;
    }
    assert(statuses@.take(statuses@.len() as int) == statuses@);
    restore_original
}

/// The hashes under which the installer script of `category` has to put the
/// hub: those of the commands of that category that the variant holds.
pub open spec fn hub_hashes(variant: Variant, category: Acmd) -> Set<u64> {
    Set::new(
        |hash: u64| variant.commands.contains_key(hash) && variant.commands[hash].category
            == category,
    )
}

/// The installer script of `category` runs for `instance` of `kind`: it
/// answers with the hashes of the commands of that category in the variant
/// that the instance follows, each once and in no particular order. The
/// caller puts the hub of the category under each of them. An instance that
/// follows no variant gets none.
pub fn acmd_installer(
    registry: &Registry,
    slots: &SlotCache,
    kind: u64,
    instance: Instance,
    category: Acmd,
) -> (hashes: Vec<u64>)
    ensures
        hashes@.no_duplicates(),
        hashes@.to_set() == match live_variant(
            registry.variants(kind),
            slots@,
            instance.slot_id(),
        ) {
            Some(variant) => hub_hashes(variant, category),
            None => Set::empty(),
        },
{
    let mut hashes: Vec<u64> = Vec::new();
    match live_record(registry, slots, kind, instance.slot()) {
        Some(record) => {
            let ghost variant = record@;
            for pair in it: record.commands.iter()
                invariant
                    variant == record@,
                    it.seq().no_duplicates(),
                    forall|i: int|
                        0 <= i < it.seq().len() ==> variant.commands.contains_key(
                            *(#[trigger] it.seq()[i]).0,
                        ) && variant.commands[*it.seq()[i].0] == *it.seq()[i].1,
                    forall|hash: u64| #[trigger]
                        variant.commands.contains_key(hash) ==> it.seq().contains(
                            (&hash, &variant.commands[hash]),
                        ),
                    hashes@.no_duplicates(),
                    forall|hash: u64| #[trigger]
                        hashes@.contains(hash) <==> exists|j: int|
                            0 <= j < it.index() && *(#[trigger] it.seq()[j]).0 == hash
                                && it.seq()[j].1.category == category,
                    it.index() == it.seq().len() ==> hashes@.to_set() == hub_hashes(
                        variant,
                        category,
                    ),
            {
                let (hash, script) = pair;
                let ghost before = hashes@;
                let ghost at = it.index() as int;
                if script.category == category {
                    assert(!before.contains(*hash)) by {
                        if before.contains(*hash) {
                            let j = choose|j: int|
                                0 <= j < at && *(#[trigger] it.seq()[j]).0 == *hash
                                    && it.seq()[j].1.category == category;
                            assert(it.seq()[j] == it.seq()[at]);
                        }
                    }
                    hashes.push(*hash);
                    assert(hashes@[before.len() as int] == *hash);
                }
                proof {
                    let after = hashes@;
                    assert forall|h: u64| #[trigger]
                        after.contains(h) <==> exists|j: int|
                            0 <= j < at + 1 && *(#[trigger] it.seq()[j]).0 == h
                                && it.seq()[j].1.category == category by {
                        if after.contains(h) {
                            if before.contains(h) {
                                let j = choose|j: int|
                                    0 <= j < at && *(#[trigger] it.seq()[j]).0 == h
                                        && it.seq()[j].1.category == category;
                                assert(0 <= j < at + 1);
                            } else {
                                let k = choose|k: int| 0 <= k < after.len() && after[k] == h;
                                if k < before.len() {
                                    assert(before[k] == h);
                                }
                                assert(*it.seq()[at].0 == h);
                            }
                        }
                        if exists|j: int|
                            0 <= j < at + 1 && *(#[trigger] it.seq()[j]).0 == h
                                && it.seq()[j].1.category == category {
                            let j = choose|j: int|
                                0 <= j < at + 1 && *(#[trigger] it.seq()[j]).0 == h
                                    && it.seq()[j].1.category == category;
                            if j < at {
                                assert(before.contains(h));
                                let k = choose|k: int| 0 <= k < before.len() && before[k] == h;
                                assert(after[k] == h);
                            } else {
                                assert(after[before.len() as int] == h);
                            }
                        }
                    }
                    assert(at + 1 == it.seq().len() ==> after.to_set() == hub_hashes(
                        variant,
                        category,
                    )) by {
                        assert forall|h: u64| at + 1 == it.seq().len() implies (
                        after.to_set().contains(h) <==> hub_hashes(variant, category).contains(
                            h,
                        )) by {
                            if after.contains(h) {
                                let j = choose|j: int|
                                    0 <= j < at + 1 && *(#[trigger] it.seq()[j]).0 == h
                                        && it.seq()[j].1.category == category;
                                assert(variant.commands[*it.seq()[j].0] == *it.seq()[j].1);
                            }
                            if hub_hashes(variant, category).contains(h) {
                                assert(it.seq().contains((&h, &variant.commands[h])));
                                let j = choose|j: int|
                                    0 <= j < it.seq().len() && it.seq()[j] == (
                                        &h,
                                        &variant.commands[h],
                                    );
                                assert(*it.seq()[j].0 == h);
                            }
                        }
                        assert(at + 1 == it.seq().len() ==> after.to_set() =~= hub_hashes(
                            variant,
                            category,
                        ));
                    }
                }
            }
        },
        None => {
            assert(hashes@.to_set() =~= Set::<u64>::empty());
        },
    }
    hashes
}

/// The routine of the command with name hash `hash`, if the variant has it.
pub open spec fn command_of(variant: Variant, hash: u64) -> Option<AcmdHook> {
    if variant.commands.contains_key(hash) {
        Some(variant.commands[hash].function)
    } else {
        None
    }
}

/// The routine that `instance` of a kind plays for the command with name
/// hash `hash`: that of the variant it follows, if it follows one.
pub open spec fn command_for(
    list: Seq<Variant>,
    slots: Seq<SlotEntry>,
    instance: Instance,
    hash: u64,
) -> Option<AcmdHook> {
    match live_variant(list, slots, instance.slot_id()) {
        Some(variant) => command_of(variant, hash),
        None => None,
    }
}

/// The routine that the hub of `category` plays for `instance` while the
/// animation with name hash `game_hash` runs: the base name of the animation
/// leads to the name of the command of `category`, and the variant that the
/// instance follows is asked for the command of that name. Without a base
/// name for the animation nothing is played.
pub open spec fn dispatched(
    list: Seq<Variant>,
    names: Map<u64, Seq<char>>,
    slots: Seq<SlotEntry>,
    instance: Instance,
    game_hash: u64,
    category: Acmd,
) -> Option<AcmdHook> {
    if names.contains_key(game_hash) {
        command_for(
            list,
            slots,
            instance,
            hash40_of(script_name_of(category, names[game_hash])),
        )
    } else {
        None
    }
}

/// The routine that `instance` of `kind` plays for the command with name
/// hash `hash`.
pub fn lookup_command(
    registry: &Registry,
    slots: &SlotCache,
    kind: u64,
    instance: Instance,
    hash: u64,
) -> (routine: Option<AcmdHook>)
    ensures
        routine == command_for(registry.variants(kind), slots@, instance, hash),
{
    match live_record(registry, slots, kind, instance.slot()) {
        Some(record) => match record.commands.get(&hash) {
            Some(script) => Some(script.function),
            None => None,
        },
        None => None,
    }
}

/// The hub of `category` is called for `instance` of `kind` while the
/// animation with name hash `game_hash` runs: it answers with the routine
/// to play, if there is one.
pub fn acmd_hub(
    registry: &Registry,
    names: &BaseNameIndex,
    slots: &SlotCache,
    kind: u64,
    instance: Instance,
    game_hash: u64,
    category: Acmd,
) -> (routine: Option<AcmdHook>)
    ensures
        routine == dispatched(
            registry.variants(kind),
            names@,
            slots@,
            instance,
            game_hash,
            category,
        ),
{
    match names.get(game_hash) {
        Some(base) => {
            let name = script_name(category, base.as_str());
            let hash = hash40(name.as_str());
            lookup_command(registry, slots, kind, instance, hash)
        },
        None => None,
    }
}

/// What a weapon sets before its first status.
pub struct WeaponInstallation {
    /// The status overrides of the variant the weapon follows, to be set in
    /// this order.
    pub status_overrides: Vec<StatusScript>,
    /// Whether the default status handler is to be put back afterwards.
    pub restore_original: bool,
}

/// A weapon of `kind` whose owner has entry id `owner_entry_id` installs its
/// variant: the status overrides of the variant it follows, and whether the
/// default handler comes back after them. A weapon that follows no variant
/// sets nothing and keeps the default.
pub fn weapon_installer_helper(
    registry: &Registry,
    slots: &SlotCache,
    kind: u64,
    owner_entry_id: i32,
) -> (installation: WeaponInstallation)
    ensures
        match live_variant(registry.variants(kind), slots@, owner_entry_id) {
            Some(variant) => installation.status_overrides@ == variant.status_overrides
                && installation.restore_original == restores_original(variant.status_overrides),
            None => installation.status_overrides@.len() == 0 && installation.restore_original,
        },
{
    match live_record(registry, slots, kind, owner_entry_id) {
        Some(record) => {
            let restore_original = install_slotted_statuses(&record.status_overrides);
            WeaponInstallation {
                status_overrides: record.status_overrides.clone(),
                restore_original,
            }
        },
        None => WeaponInstallation { status_overrides: Vec::new(), restore_original: true },
    }
}

/// How the first status line of a weapon goes on once the variant is
/// installed.
#[derive(Clone, Copy, PartialEq, Eq, Structural, Debug)]
pub enum PreOutcome {
    /// The default handler runs; `reinstall` says whether it is first put
    /// back as the handler of the `Pre` line of status kind 0.
    RunOriginal { reinstall: bool },
    /// The weapon is sent to status kind `status` at once, and the line
    /// answers `value`.
    Interrupt { status: i32, value: i32 },
}

/// What the first status line of a weapon has to do.
pub struct PreInstallation {
    /// The status overrides to set, in this order.
    pub status_overrides: Vec<StatusScript>,
    /// How the line goes on after that.
    pub outcome: PreOutcome,
}

/// The first status line of a weapon of `kind`: the variant is installed and
/// the default handler runs, put back as the handler of the line unless the
/// variant overrides it.
pub fn slotted_weapon_installer_pre(
    registry: &Registry,
    slots: &SlotCache,
    kind: u64,
    owner_entry_id: i32,
) -> (pre: PreInstallation)
    ensures
        match live_variant(registry.variants(kind), slots@, owner_entry_id) {
            Some(variant) => pre.status_overrides@ == variant.status_overrides && pre.outcome
                == (PreOutcome::RunOriginal {
                reinstall: restores_original(variant.status_overrides),
            }),
            None => pre.status_overrides@.len() == 0 && pre.outcome == (PreOutcome::RunOriginal {
                reinstall: true,
            }),
        },
{
    let installation = weapon_installer_helper(registry, slots, kind, owner_entry_id);
    PreInstallation {
        status_overrides: installation.status_overrides,
        outcome: PreOutcome::RunOriginal { reinstall: installation.restore_original },
    }
}

/// The first status line of a cloned weapon of `kind`: the variant is
/// installed and the weapon is sent to status kind 0 at once, where the
/// overrides that were just set take effect.
pub fn slotted_cloned_weapon_installer_pre(
    registry: &Registry,
    slots: &SlotCache,
    kind: u64,
    owner_entry_id: i32,
) -> (pre: PreInstallation)
    ensures
        pre.outcome == (PreOutcome::Interrupt { status: 0, value: 1 }),
        pre.status_overrides@ == match live_variant(
            registry.variants(kind),
            slots@,
            owner_entry_id,
        ) {
            Some(variant) => variant.status_overrides,
            None => Seq::empty(),
        },
{
    let installation = weapon_installer_helper(registry, slots, kind, owner_entry_id);
    PreInstallation {
        status_overrides: installation.status_overrides,
        outcome: PreOutcome::Interrupt { status: 0, value: 1 },
    }
}

} // verus!
