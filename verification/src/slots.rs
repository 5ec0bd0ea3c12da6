//! The instance slot cache: what each live fighter resolved to.
//!
//! The host numbers the fighters that are alive at one time with a small
//! entry id. A slot says whether its fighter has resolved its variant and,
//! if so, which variant and which frame hook it found. Entry ids are reused
//! from one life to the next, so every start of a fighter clears all slots.

use vstd::prelude::*;

use crate::hooks::LineHook;

verus! {

/// How many fighters the host keeps alive at one time.
pub const MAX_ENTRIES: usize = 8;

/// What one live fighter resolved to.
#[derive(Clone, Copy, PartialEq, Eq, Structural, Debug)]
pub struct SlotEntry {
    /// Whether the fighter has looked for its variant since it started.
    pub initialized: bool,
    /// The position of the variant it found, in the list of its kind.
    pub resolved_variant_index: Option<usize>,
    /// The frame hook of the variant it found.
    pub resolved_frame_hook: Option<LineHook>,
}

/// The slot of a fighter that has not looked for its variant.
pub open spec fn idle() -> SlotEntry {
    SlotEntry { initialized: false, resolved_variant_index: None, resolved_frame_hook: None }
}

/// `len` slots of fighters that have not looked for their variants.
pub open spec fn all_idle(len: nat) -> Seq<SlotEntry> {
    Seq::new(len, |i: int| idle())
}

/// The slot of entry id `id`, if the cache has one.
pub open spec fn slot_at(slots: Seq<SlotEntry>, id: i32) -> Option<SlotEntry> {
    if 0 <= id < slots.len() {
        Some(slots[id as int])
    } else {
        None
    }
}

/// The variant that the fighter with entry id `id` resolved to; none for a
/// fighter that has found none and for an id without a slot.
pub open spec fn resolved_variant(slots: Seq<SlotEntry>, id: i32) -> Option<usize> {
    match slot_at(slots, id) {
        Some(entry) => entry.resolved_variant_index,
        None => None,
    }
}

/// One slot for each fighter the host can keep alive.
pub struct SlotCache {
    entries: Vec<SlotEntry>,
}

impl View for SlotCache {
    type V = Seq<SlotEntry>;

    closed spec fn view(&self) -> Seq<SlotEntry> {
        self.entries@
    }
}

impl SlotCache {
    /// A cache of `MAX_ENTRIES` slots, none of them resolved.
    pub fn new() -> (cache: Self)
        ensures
            cache@ == all_idle(MAX_ENTRIES as nat),
    {
        SlotCache::with_entries(MAX_ENTRIES)
    }

    /// A cache of `len` slots, none of them resolved.
    pub fn with_entries(len: usize) -> (cache: Self)
        ensures
            cache@ == all_idle(len as nat),
    {
        let mut entries: Vec<SlotEntry> = Vec::new();
        let mut i: usize = 0;
        while i < len
            invariant
                i <= len,
                entries@ == all_idle(i as nat),
            decreases len - i,
        {
            entries.push(
                SlotEntry {
                    initialized: false,
                    resolved_variant_index: None,
                    resolved_frame_hook: None,
                },
            );
            assert(entries@ =~= all_idle((i + 1) as nat));
            i += 1;
        }
        SlotCache { entries }
    }

    /// How many slots the cache has.
    pub fn len(&self) -> (len: usize)
        ensures
            len == self@.len(),
    {
        self.entries.len()
    }

    /// Clears every slot.
    pub fn reset(&mut self)
        ensures
            final(self)@ == all_idle(old(self)@.len()),
    {
        let len = self.entries.len();
        let mut i: usize = 0;
        while i < len
            invariant
                i <= len,
                self.entries@.len() == len,
                forall|j: int| 0 <= j < i ==> self.entries@[j] == idle(),
            decreases len - i,
        {
            self.entries[i] = SlotEntry {
                initialized: false,
                resolved_variant_index: None,
                resolved_frame_hook: None,
            };
            i += 1;
        }
        assert(self@ =~= all_idle(old(self)@.len()));
    }

    /// The slot of entry id `id`, if the cache has one.
    pub fn get(&self, id: i32) -> (entry: Option<SlotEntry>)
        ensures
            entry == slot_at(self@, id),
    {
        if id < 0 {
            return None;
        }
        let at = id as usize;
        if at < self.entries.len() {
            Some(self.entries[at])
        } else {
            None
        }
    }

    /// Puts `entry` into the slot of entry id `id`; an id without a slot
    /// changes nothing.
    pub fn set(&mut self, id: i32, entry: SlotEntry)
        ensures
            final(self)@ == if 0 <= id < old(self)@.len() {
                old(self)@.update(id as int, entry)
            } else {
                old(self)@
            },
    {
        if id < 0 {
            return ;
        }
        let at = id as usize;
        if at < self.entries.len() {
            self.entries[at] = entry;
        }
    }
}

} // verus!
