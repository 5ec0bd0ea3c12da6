//! Command names, their hashes and the base-name index.
//!
//! A command is registered under a name such as `sound_jump`: a category
//! prefix, an underscore and a base name. The host identifies the animation
//! that plays by the hash of its `game_` name. The base-name index leads
//! from that hash back to the base name, so that the command of any category
//! can be found for the animation that plays.

use std::collections::HashMap;
use vstd::prelude::*;
use vstd::string::*;

use crate::hooks::Acmd;
use crate::search::{first_index, is_first, lemma_first_index_none, lemma_first_index_some};

verus! {

/// The 40-bit hash that the host knows the name by.
pub uninterp spec fn hash40_of(name: Seq<char>) -> u64;

/// Hashes a name with `hash40::hash40`.
///
/// Taken on trust: the hash depends on the characters of the name alone, so
/// equal names have equal hashes. Nothing is claimed about its value.
#[verifier::external_body]
pub(crate) fn hash40(name: &str) -> (hash: u64)
    ensures
        hash == hash40_of(name@),
{
    hash40::hash40(name).0
}

/// The characters of the underscore that parts a prefix from a base name.
pub open spec fn is_underscore() -> spec_fn(char) -> bool {
    |c: char| c == '_'
}

/// What follows the first underscore of `name`, if it has one.
pub open spec fn base_name_of(name: Seq<char>) -> Option<Seq<char>> {
    match first_index(name, is_underscore()) {
        Some(i) => Some(name.skip(i + 1)),
        None => None,
    }
}

/// The name of the command of `category` with base name `base`.
pub open spec fn script_name_of(category: Acmd, base: Seq<char>) -> Seq<char> {
    category.prefix_of().push('_') + base
}

/// The category whose prefix `name` starts with. The prefixes are tried in
/// the order game, effect, sound, expression.
pub open spec fn category_of(name: Seq<char>) -> Option<Acmd> {
    if Acmd::Game.prefix_of().is_prefix_of(name) {
        Some(Acmd::Game)
    } else if Acmd::Effect.prefix_of().is_prefix_of(name) {
        Some(Acmd::Effect)
    } else if Acmd::Sound.prefix_of().is_prefix_of(name) {
        Some(Acmd::Sound)
    } else if Acmd::Expression.prefix_of().is_prefix_of(name) {
        Some(Acmd::Expression)
    } else {
        None
    }
}

impl Acmd {
    /// The prefix of the command names of this category.
    pub open spec fn prefix_of(self) -> Seq<char> {
        match self {
            Acmd::Game => "game"@,
            Acmd::Effect => "effect"@,
            Acmd::Sound => "sound"@,
            Acmd::Expression => "expression"@,
        }
    }

    /// The prefix of the command names of this category.
    pub fn prefix(self) -> (prefix: &'static str)
        ensures
            prefix@ == self.prefix_of(),
    {
        match self {
            Acmd::Game => "game",
            Acmd::Effect => "effect",
            Acmd::Sound => "sound",
            Acmd::Expression => "expression",
        }
    }

    /// The category that a command name belongs to by its prefix.
    pub fn of_name(name: &str) -> (category: Option<Acmd>)
        ensures
            category == category_of(name@),
    {
        if starts_with(name, Acmd::Game.prefix()) {
            Some(Acmd::Game)
        } else if starts_with(name, Acmd::Effect.prefix()) {
            Some(Acmd::Effect)
        } else if starts_with(name, Acmd::Sound.prefix()) {
            Some(Acmd::Sound)
        } else if starts_with(name, Acmd::Expression.prefix()) {
            Some(Acmd::Expression)
        } else {
            None
        }
    }
}

/// No category prefix holds an underscore.
pub proof fn lemma_prefix_has_no_underscore(category: Acmd)
    ensures
        forall|j: int|
            0 <= j < category.prefix_of().len() ==> !is_underscore()(
                #[trigger] category.prefix_of()[j],
            ),
{
    reveal_strlit("game");
    reveal_strlit("effect");
    reveal_strlit("sound");
    reveal_strlit("expression");
}

/// The base name of a command name is the base that the name was made from,
/// whatever the category and whatever the base.
pub proof fn lemma_base_of_script_name(category: Acmd, base: Seq<char>)
    ensures
        base_name_of(script_name_of(category, base)) == Some(base),
{
    let prefix = category.prefix_of();
    let name = script_name_of(category, base);
    let at = prefix.len() as int;
    lemma_prefix_has_no_underscore(category);
    assert(name[at] == '_');
    assert forall|j: int| 0 <= j < at implies !is_underscore()(#[trigger] name[j]) by {
        assert(name[j] == prefix[j]);
    }
    assert(is_first(name, is_underscore(), at));
    lemma_first_index_some(name, is_underscore(), at);
    assert(name.skip(at + 1) =~= base);
}

/// The characters of a string, in order.
pub fn chars_of(text: &str) -> (chars: Vec<char>)
    ensures
        chars@ == text@,
{
    let mut chars: Vec<char> = Vec::new();
    for c in it: text.chars()
        invariant
            it.seq() == text@,
            chars@ == text@.take(it.index() as int),
    {
        chars.push(c);
        assert(text@.take(it.index() + 1) == text@.take(it.index() as int).push(c));
    }
    assert(text@.take(text@.len() as int) == text@);
    chars
}

/// Whether `text` starts with `prefix`.
pub fn starts_with(text: &str, prefix: &str) -> (yes: bool)
    ensures
        yes == prefix@.is_prefix_of(text@),
{
    let whole = chars_of(text);
    let start = chars_of(prefix);
    if start.len() > whole.len() {
        return false;
    }
    let mut i: usize = 0;
    while i < start.len()
        invariant
            whole@ == text@,
            start@ == prefix@,
            i <= start.len() <= whole.len(),
            forall|j: int| 0 <= j < i ==> whole@[j] == start@[j],
        decreases start.len() - i,
    {
        if whole[i] != start[i] {
            proof {
                let cut = text@.subrange(0, prefix@.len() as int);
                assert(cut[i as int] != prefix@[i as int]);
                assert(cut != prefix@);
            }
            return false;
        }
        i += 1;
    }
    assert(prefix@ =~= text@.subrange(0, prefix@.len() as int));
    true
}

/// What follows the first underscore of `name`, if it has one.
pub fn base_name(name: &str) -> (base: Option<String>)
    ensures
        match base {
            Some(b) => base_name_of(name@) == Some(b@),
            None => base_name_of(name@) is None,
        },
{
    let len = name.unicode_len();
    let mut i: usize = 0;
    for c in it: name.chars()
        invariant
            it.seq() == name@,
            i == it.index(),
            len == name@.len(),
            forall|j: int| 0 <= j < i ==> !is_underscore()(#[trigger] name@[j]),
    {
        if c == '_' {
            proof {
                assert(is_first(name@, is_underscore(), i as int));
                lemma_first_index_some(name@, is_underscore(), i as int);
            }
            let rest = name.substring_char(i + 1, len);
            return Some(String::from_str(rest));
        }
        i += 1;
    }
    proof {
        lemma_first_index_none(name@, is_underscore());
    }
    None
}

/// The name of the command of `category` with base name `base`.
pub fn script_name(category: Acmd, base: &str) -> (name: String)
    ensures
        name@ == script_name_of(category, base@),
{
    let mut name = String::from_str(category.prefix());
    proof {
        reveal_strlit("_");
    }
    name.append("_");
    name.append(base);
    assert(name@ =~= script_name_of(category, base@));
    name
}

/// The base names of the commands that were registered, each under the hash
/// of its `game_` name. The first base name recorded under a hash stays.
pub struct BaseNameIndex {
    names: HashMap<u64, String>,
}

impl View for BaseNameIndex {
    type V = Map<u64, Seq<char>>;

    closed spec fn view(&self) -> Map<u64, Seq<char>> {
        self.names@.map_values(|base: String| base@)
    }
}

/// The index after `base` was offered for `key`: an entry that is there
/// stays as it is.
pub open spec fn offered(index: Map<u64, Seq<char>>, key: u64, base: Seq<char>) -> Map<
    u64,
    Seq<char>,
> {
    if index.contains_key(key) {
        index
    } else {
        index.insert(key, base)
    }
}

/// The index after the command `name` was registered: a name without an
/// underscore leaves it as it is.
pub open spec fn recorded(index: Map<u64, Seq<char>>, name: Seq<char>) -> Map<u64, Seq<char>> {
    match base_name_of(name) {
        Some(base) => offered(index, hash40_of(script_name_of(Acmd::Game, base)), base),
        None => index,
    }
}

impl BaseNameIndex {
    /// An index without entries.
    pub fn new() -> (index: Self)
        ensures
            index@ == Map::<u64, Seq<char>>::empty(),
    {
        let index = BaseNameIndex { names: HashMap::new() };
        assert(index@ =~= Map::<u64, Seq<char>>::empty());
        index
    }

    /// Enters `base` under `key` unless `key` has an entry.
    pub fn offer(&mut self, key: u64, base: String)
        ensures
            final(self)@ == offered(old(self)@, key, base@),
    {
        if !self.names.contains_key(&key) {
            self.names.insert(key, base);
            assert(self@ =~= old(self)@.insert(key, base@));
        }
    }

    /// Records the base name of the command `name` under the hash of its
    /// `game_` name.
    pub fn record(&mut self, name: &str)
        ensures
            final(self)@ == recorded(old(self)@, name@),
    {
        match base_name(name) {
            Some(base) => {
                let game = script_name(Acmd::Game, base.as_str());
                let key = hash40(game.as_str());
                self.offer(key, base);
            },
            None => {},
        }
    }

    /// The base name recorded under `key`.
    pub fn get(&self, key: u64) -> (base: Option<&String>)
        ensures
            match base {
                Some(b) => self@.contains_key(key) && self@[key] == b@,
                None => !self@.contains_key(key),
            },
    {
        self.names.get(&key)
    }
}

} // verus!
