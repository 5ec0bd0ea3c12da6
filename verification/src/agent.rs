//! The builder that an entity definition registers its variant with.
//!
//! A `SlottedAgent` stands for one variant of one entity kind: the kind is
//! fixed when the agent is made, the color set is given next, and every
//! hook that is registered afterwards goes to the registry under that kind
//! and color set. Registrations for a name that the host does not know are
//! dropped. `install` lists what has to be attached to the host so that its
//! callbacks reach this library.

use std::collections::HashSet;
use vstd::prelude::*;
use vstd::string::*;

use crate::hooks::{
    Acmd, AcmdHook, AcmdScript, LineHook, Priority, StateHook, StatusHook, StatusLine,
    StatusScript,
};
use crate::names::{category_of, hash40, hash40_of, recorded, BaseNameIndex};
use crate::registry::{has_colors, mask_view, registered, Field, Registry, Variant};
use crate::search::first_index;

verus! {

/// The callbacks of this library that the host is pointed at.
#[derive(Clone, Copy, PartialEq, Eq, Structural, Debug)]
pub enum Trampoline {
    /// Runs when a fighter starts.
    OnStart,
    /// Runs on every frame of a fighter.
    Opff,
    /// Runs on every frame of a weapon.
    WeaponOpff,
    /// Runs before the first status of a weapon.
    WeaponInstallerPre,
    /// Runs before the first status of a cloned weapon.
    ClonedWeaponInstallerPre,
    /// The installer script of one command category.
    AcmdInstaller(Acmd),
}

/// One thing to attach to the host's agent for a kind.
#[derive(Clone, Copy, PartialEq, Eq, Structural, Debug)]
pub enum HostHook {
    /// A routine of the caller that runs when an instance is initialized.
    Init(StateHook),
    /// A routine of the caller that runs when an instance is finalized.
    Fini(StateHook),
    /// A routine of the caller that runs when an instance ends.
    End(StateHook),
    /// A callback that runs when an instance starts.
    Start(Trampoline),
    /// A callback that runs on a status line, every frame.
    Line(StatusLine, Trampoline),
    /// A callback that takes the place of a line of a status kind.
    Status(StatusLine, i32, Trampoline),
    /// The installer script of a command category, registered under its
    /// installer name with the given priority.
    AcmdInstaller(Acmd, Priority),
}

/// What an agent holds.
#[verifier::ext_equal]
pub struct AgentView {
    /// The name the agent was made for.
    pub name: Seq<char>,
    /// The entity kind that its registrations go to.
    pub hash: u64,
    pub is_weapon: bool,
    pub is_cloned: bool,
    /// The color set of the variant.
    pub color: Seq<i32>,
    /// The legacy mask of the variant, if the colors were given as one.
    pub color_bool: Option<Seq<bool>>,
    /// What is to be attached to the host's agent, in order.
    pub pending: Seq<HostHook>,
}

/// One variant of one entity kind, in the making.
pub struct SlottedAgent {
    name: String,
    hash: u64,
    is_weapon: bool,
    is_cloned: bool,
    color: Vec<i32>,
    color_bool: Option<[bool; 256]>,
    pending: Vec<HostHook>,
}

impl View for SlottedAgent {
    type V = AgentView;

    closed spec fn view(&self) -> AgentView {
        AgentView {
            name: self.name@,
            hash: self.hash,
            is_weapon: self.is_weapon,
            is_cloned: self.is_cloned,
            color: self.color@,
            color_bool: mask_view(self.color_bool),
            pending: self.pending@,
        }
    }
}

/// The kind that stands for every name the host does not know.
pub open spec fn invalid_kind() -> u64 {
    hash40_of("invalid"@)
}

/// The kind of the fighter called `name`.
pub open spec fn fighter_kind_of(name: Seq<char>) -> u64 {
    hash40_of("fighter_kind_"@ + name)
}

/// The kind of the weapon called `name`.
pub open spec fn weapon_kind_of(name: Seq<char>) -> u64 {
    hash40_of("weapon_kind_"@ + name)
}

/// The kind of the entity called `name`, given the ids under which the host
/// knows the name as a fighter and as a weapon; -1 says that it does not. A
/// name that is both counts as a fighter.
pub open spec fn kind_of(name: Seq<char>, fighter_id: i32, weapon_id: i32) -> u64 {
    if fighter_id != -1 {
        fighter_kind_of(name)
    } else if weapon_id != -1 {
        weapon_kind_of(name)
    } else {
        invalid_kind()
    }
}

/// The name of the weapon called `name` of the owner called `owner`.
pub open spec fn cloned_weapon_name_of(owner: Seq<char>, name: Seq<char>) -> Seq<char> {
    owner.push('_') + name
}

/// The name of the weapon called `name` of the owner called `owner`.
pub fn cloned_weapon_name(owner: &str, name: &str) -> (weapon: String)
    ensures
        weapon@ == cloned_weapon_name_of(owner@, name@),
{
    let mut weapon = String::from_str(owner);
    proof {
        reveal_strlit("_");
    }
    weapon.append("_");
    weapon.append(name);
    assert(weapon@ =~= cloned_weapon_name_of(owner@, name@));
    weapon
}

/// The kind of the fighter called `name`.
fn fighter_kind(name: &str) -> (kind: u64)
    ensures
        kind == fighter_kind_of(name@),
{
    let mut full = String::from_str("fighter_kind_");
    full.append(name);
    hash40(full.as_str())
}

/// The kind of the weapon called `name`.
fn weapon_kind(name: &str) -> (kind: u64)
    ensures
        kind == weapon_kind_of(name@),
{
    let mut full = String::from_str("weapon_kind_");
    full.append(name);
    hash40(full.as_str())
}

/// The registry after an agent registered `field`: the field goes to the
/// agent's variant of the agent's kind, and nothing else changes. For an
/// agent of the invalid kind nothing changes at all.
pub open spec fn registers(
    before: Registry,
    after: Registry,
    agent: AgentView,
    field: Field,
) -> bool {
    &&& after.is_migrated() == before.is_migrated()
    &&& forall|kind: u64| #[trigger]
        after.variants(kind) == if kind == agent.hash && agent.hash != invalid_kind() {
            registered(before.variants(kind), agent.color, agent.color_bool, field)
        } else {
            before.variants(kind)
        }
}

/// The overrides that a cloned weapon attaches its installer to, besides
/// status kind 0: one for each override of another status kind, in order.
pub open spec fn cloned_status_steps(overrides: Seq<StatusScript>) -> Seq<HostHook>
    decreases overrides.len(),
{
    if overrides.len() == 0 {
        Seq::empty()
    } else if overrides.last().kind != 0 {
        cloned_status_steps(overrides.drop_last()).push(
            HostHook::Status(
                StatusLine::Pre,
                overrides.last().kind,
                Trampoline::ClonedWeaponInstallerPre,
            ),
        )
    } else {
        cloned_status_steps(overrides.drop_last())
    }
}

/// What a weapon attaches: its installer before status kind 0; for a cloned
/// weapon the installer before every other status kind that its variant
/// overrides; and the frame callback if its variant has a frame hook.
pub open spec fn weapon_steps(agent: AgentView, list: Seq<Variant>) -> Seq<HostHook> {
    let installer = if agent.is_cloned {
        Trampoline::ClonedWeaponInstallerPre
    } else {
        Trampoline::WeaponInstallerPre
    };
    let first = seq![HostHook::Status(StatusLine::Pre, 0, installer)];
    match first_index(list, has_colors(agent.color)) {
        Some(i) => first + (if agent.is_cloned {
            cloned_status_steps(list[i].status_overrides)
        } else {
            Seq::empty()
        }) + (if list[i].frame_hook is Some {
            seq![HostHook::Line(StatusLine::Main, Trampoline::WeaponOpff)]
        } else {
            Seq::empty()
        }),
        None => first,
    }
}

/// What a fighter attaches: the start callback and the frame callback.
pub open spec fn fighter_steps() -> Seq<HostHook> {
    seq![
        HostHook::Start(Trampoline::OnStart),
        HostHook::Line(StatusLine::Main, Trampoline::Opff),
    ]
}

/// The installer scripts of the four command categories.
pub open spec fn installer_steps() -> Seq<HostHook> {
    seq![
        HostHook::AcmdInstaller(Acmd::Game, Priority::Default),
        HostHook::AcmdInstaller(Acmd::Effect, Priority::Default),
        HostHook::AcmdInstaller(Acmd::Sound, Priority::Default),
        HostHook::AcmdInstaller(Acmd::Expression, Priority::Default),
    ]
}

/// What `install` attaches for an agent whose kind has the variants `list`.
pub open spec fn install_steps(agent: AgentView, list: Seq<Variant>) -> Seq<HostHook> {
    (if agent.is_weapon {
        weapon_steps(agent, list)
    } else {
        fighter_steps()
    }) + installer_steps()
}

impl SlottedAgent {
    /// An agent for the entity called `agent`. `fighter_id` and `weapon_id`
    /// are the ids under which the host knows the name as a fighter and as a
    /// weapon, -1 where it does not.
    pub fn new(agent: &str, fighter_id: i32, weapon_id: i32) -> (made: Self)
        ensures
            made@ == (AgentView {
                name: agent@,
                hash: kind_of(agent@, fighter_id, weapon_id),
                is_weapon: fighter_id == -1 && weapon_id != -1,
                is_cloned: false,
                color: Seq::empty(),
                color_bool: None,
                pending: Seq::empty(),
            }),
    {
        let mut is_weapon = false;
        let hash = if fighter_id != -1 {
            fighter_kind(agent)
        } else if weapon_id != -1 {
            is_weapon = true;
            weapon_kind(agent)
        } else {
            hash40("invalid")
        };
        SlottedAgent {
            name: String::from_str(agent),
            hash,
            is_weapon,
            is_cloned: false,
            color: Vec::new(),
            color_bool: None,
            pending: Vec::new(),
        }
    }

    /// The name the agent was made for.
    pub fn name(&self) -> (name: &String)
        ensures
            name@ == self@.name,
    {
        &self.name
    }

    /// The entity kind that the registrations of the agent go to.
    pub fn hash(&self) -> (hash: u64)
        ensures
            hash == self@.hash,
    {
        self.hash
    }

    /// Whether the agent stands for a weapon.
    pub fn is_weapon(&self) -> (yes: bool)
        ensures
            yes == self@.is_weapon,
    {
        self.is_weapon
    }

    /// Whether the agent stands for a weapon cloned from another owner's.
    pub fn is_cloned(&self) -> (yes: bool)
        ensures
            yes == self@.is_cloned,
    {
        self.is_cloned
    }

    /// The color set of the variant.
    pub fn color(&self) -> (color: &Vec<i32>)
        ensures
            color@ == self@.color,
    {
        &self.color
    }

    /// Whether the host knows the entity that the agent was made for.
    pub fn is_valid(&self) -> (valid: bool)
        ensures
            valid == (self@.hash != invalid_kind()),
    {
        self.hash != hash40("invalid")
    }

    /// Gives the colors of the variant as a legacy mask. The color set
    /// stays as it is; the mask is converted when the first fighter starts.
    pub fn set_color(&mut self, color: &[bool; 256]) -> (ret: &mut Self)
        ensures
            *final(self) == *final(ret),
            ret@ == (AgentView { color_bool: Some(color@), ..old(self)@ }),
    {
        self.color_bool = Some(*color);
        self
    }

    /// Gives the color set of the variant.
    pub fn set_color2(&mut self, color: Vec<i32>) -> (ret: &mut Self)
        ensures
            *final(self) == *final(ret),
            ret@ == (AgentView { color: color@, ..old(self)@ }),
    {
        self.color = color;
        self
    }

    /// Makes the agent stand for the weapon `original_name` of
    /// `original_owner`, cloned: `weapon_id` is the id under which the host
    /// knows that weapon, -1 where it does not, in which case the agent
    /// stays as it is.
    pub fn weapon_cloned_from(
        &mut self,
        original_owner: &str,
        original_name: &str,
        weapon_id: i32,
    ) -> (ret: &mut Self)
        ensures
            *final(self) == *final(ret),
            ret@ == if weapon_id != -1 {
                AgentView {
                    is_weapon: true,
                    is_cloned: true,
                    hash: weapon_kind_of(
                        cloned_weapon_name_of(original_owner@, original_name@),
                    ),
                    ..old(self)@
                }
            } else {
                old(self)@
            },
    {
        if weapon_id != -1 {
            let weapon_name = cloned_weapon_name(original_owner, original_name);
            self.is_weapon = true;
            self.hash = weapon_kind(weapon_name.as_str());
            self.is_cloned = true;
        }
        self
    }

    /// Registers the command `name` under the category that its prefix
    /// names. A name with none of the four prefixes is skipped.
    pub fn acmd(
        &mut self,
        registry: &mut Registry,
        names: &mut BaseNameIndex,
        name: &str,
        function: AcmdHook,
        priority: Priority,
    ) -> (ret: &mut Self)
        ensures
            *final(self) == *final(ret),
            ret@ == old(self)@,
            match category_of(name@) {
                Some(category) => command_registered(
                    *old(registry),
                    *final(registry),
                    old(names)@,
                    final(names)@,
                    old(self)@,
                    name@,
                    AcmdScript { category, function },
                ),
                None => unchanged(*old(registry), *final(registry)) && final(names)@ == old(
                    names,
                )@,
            },
    {
        match Acmd::of_name(name) {
            Some(category) => {
                self.acmd_helper(registry, names, name, AcmdScript { category, function });
            },
            None => {},
        }
        self
    }

    /// Registers the command `name` in the game category.
    pub fn game_acmd(
        &mut self,
        registry: &mut Registry,
        names: &mut BaseNameIndex,
        name: &str,
        function: AcmdHook,
        priority: Priority,
    ) -> (ret: &mut Self)
        ensures
            *final(self) == *final(ret),
            ret@ == old(self)@,
            command_registered(
                *old(registry),
                *final(registry),
                old(names)@,
                final(names)@,
                old(self)@,
                name@,
                AcmdScript { category: Acmd::Game, function },
            ),
    {
        self.acmd_helper(registry, names, name, AcmdScript { category: Acmd::Game, function });
        self
    }

    /// Registers the command `name` in the effect category.
    pub fn effect_acmd(
        &mut self,
        registry: &mut Registry,
        names: &mut BaseNameIndex,
        name: &str,
        function: AcmdHook,
        priority: Priority,
    ) -> (ret: &mut Self)
        ensures
            *final(self) == *final(ret),
            ret@ == old(self)@,
            command_registered(
                *old(registry),
                *final(registry),
                old(names)@,
                final(names)@,
                old(self)@,
                name@,
                AcmdScript { category: Acmd::Effect, function },
            ),
    {
        self.acmd_helper(registry, names, name, AcmdScript { category: Acmd::Effect, function });
        self
    }

    /// Registers the command `name` in the sound category.
    pub fn sound_acmd(
        &mut self,
        registry: &mut Registry,
        names: &mut BaseNameIndex,
        name: &str,
        function: AcmdHook,
        priority: Priority,
    ) -> (ret: &mut Self)
        ensures
            *final(self) == *final(ret),
            ret@ == old(self)@,
            command_registered(
                *old(registry),
                *final(registry),
                old(names)@,
                final(names)@,
                old(self)@,
                name@,
                AcmdScript { category: Acmd::Sound, function },
            ),
    {
        self.acmd_helper(registry, names, name, AcmdScript { category: Acmd::Sound, function });
        self
    }

    /// Registers the command `name` in the expression category.
    pub fn expression_acmd(
        &mut self,
        registry: &mut Registry,
        names: &mut BaseNameIndex,
        name: &str,
        function: AcmdHook,
        priority: Priority,
    ) -> (ret: &mut Self)
        ensures
            *final(self) == *final(ret),
            ret@ == old(self)@,
            command_registered(
                *old(registry),
                *final(registry),
                old(names)@,
                final(names)@,
                old(self)@,
                name@,
                AcmdScript { category: Acmd::Expression, function },
            ),
    {
        self.acmd_helper(
            registry,
            names,
            name,
            AcmdScript { category: Acmd::Expression, function },
        );
        self
    }

    /// Enters `script` under the hash of `name` in the agent's variant, and
    /// the base name of `name` in the base-name index.
    fn acmd_helper(
        &self,
        registry: &mut Registry,
        names: &mut BaseNameIndex,
        name: &str,
        script: AcmdScript,
    )
        ensures
            command_registered(
                *old(registry),
                *final(registry),
                old(names)@,
                final(names)@,
                self@,
                name@,
                script,
            ),
    {
        if self.hash == hash40("invalid") {
            return ;
        }
        let hash = hash40(name);
        registry.register(self.hash, &self.color, self.color_bool, Field::Command(hash, script));
        names.record(name);
    }

    /// Adds an override of line `line` of status kind `kind` to the agent's
    /// variant.
    pub fn status(
        &mut self,
        registry: &mut Registry,
        line: StatusLine,
        kind: i32,
        function: StatusHook,
    ) -> (ret: &mut Self)
        ensures
            *final(self) == *final(ret),
            ret@ == old(self)@,
            registers(
                *old(registry),
                *final(registry),
                old(self)@,
                Field::StatusOverride(StatusScript { line, kind, function }),
            ),
    {
        if self.hash != hash40("invalid") {
            registry.register(
                self.hash,
                &self.color,
                self.color_bool,
                Field::StatusOverride(StatusScript { line, kind, function }),
            );
        }
        self
    }

    /// Sets the frame hook of the agent's variant. The hook runs on the main
    /// line whatever `line` says.
    pub fn on_line(&mut self, registry: &mut Registry, line: StatusLine, function: LineHook) -> (ret:
        &mut Self)
        ensures
            *final(self) == *final(ret),
            ret@ == old(self)@,
            registers(*old(registry), *final(registry), old(self)@, Field::FrameHook(function)),
    {
        if self.hash != hash40("invalid") {
            registry.register(
                self.hash,
                &self.color,
                self.color_bool,
                Field::FrameHook(function),
            );
        }
        self
    }

    /// Has `func` run when an instance of the kind is initialized.
    pub fn on_init(&mut self, func: StateHook) -> (ret: &mut Self)
        ensures
            *final(self) == *final(ret),
            ret@ == (AgentView {
                pending: old(self)@.pending.push(HostHook::Init(func)),
                ..old(self)@
            }),
    {
        self.pending.push(HostHook::Init(func));
        self
    }

    /// Has `func` run when an instance of the kind is finalized.
    pub fn on_fini(&mut self, func: StateHook) -> (ret: &mut Self)
        ensures
            *final(self) == *final(ret),
            ret@ == (AgentView {
                pending: old(self)@.pending.push(HostHook::Fini(func)),
                ..old(self)@
            }),
    {
        self.pending.push(HostHook::Fini(func));
        self
    }

    /// Sets the start hook of the agent's variant.
    pub fn on_start(&mut self, registry: &mut Registry, func: StateHook) -> (ret: &mut Self)
        ensures
            *final(self) == *final(ret),
            ret@ == old(self)@,
            registers(*old(registry), *final(registry), old(self)@, Field::StartHook(func)),
    {
        if self.hash != hash40("invalid") {
            registry.register(self.hash, &self.color, self.color_bool, Field::StartHook(func));
        }
        self
    }

    /// Has `func` run when an instance of the kind ends.
    pub fn on_end(&mut self, func: StateHook) -> (ret: &mut Self)
        ensures
            *final(self) == *final(ret),
            ret@ == (AgentView {
                pending: old(self)@.pending.push(HostHook::End(func)),
                ..old(self)@
            }),
    {
        self.pending.push(HostHook::End(func));
        self
    }

    /// Lists what has to be attached to the host's agent for the kind, once
    /// per kind: for a kind that is among `installed` nothing is listed and
    /// nothing changes. Otherwise the list holds what was handed to the
    /// agent before, then the callbacks of this library for the kind, and
    /// the kind joins `installed`.
    pub fn install(&mut self, registry: &Registry, installed: &mut HashSet<u64>) -> (hooks:
        Option<Vec<HostHook>>)
        ensures
            match hooks {
                Some(list) => {
                    &&& !old(installed)@.contains(old(self)@.hash)
                    &&& final(installed)@ == old(installed)@.insert(old(self)@.hash)
                    &&& final(self)@ == (AgentView {
                        pending: old(self)@.pending + install_steps(
                            old(self)@,
                            registry.variants(old(self)@.hash),
                        ),
                        ..old(self)@
                    })
                    &&& list@ == final(self)@.pending
                },
                None => {
                    &&& old(installed)@.contains(old(self)@.hash)
                    &&& final(installed)@ == old(installed)@
                    &&& final(self)@ == old(self)@
                },
            },
    {
        if installed.contains(&self.hash) {
            return None;
        }
        let ghost list = registry.variants(self.hash);
        let ghost before = self.pending@;
        if self.is_weapon {
            let installer = if self.is_cloned {
                Trampoline::ClonedWeaponInstallerPre
            } else {
                Trampoline::WeaponInstallerPre
            };
            self.pending.push(HostHook::Status(StatusLine::Pre, 0, installer));
            match registry.find(self.hash, &self.color) {
                Some(i) => {
                    let record = registry.variant(self.hash, i).unwrap();
                    if self.is_cloned {
                        let ghost start = self.pending@;
                        let overrides = &record.status_overrides;
                        let mut n: usize = 0;
                        while n < overrides.len()
                            invariant
                                n <= overrides.len(),
                                installer == Trampoline::ClonedWeaponInstallerPre,
                                self.pending@ == start + cloned_status_steps(
                                    overrides@.take(n as int),
                                ),
                                self.name == old(self).name,
                                self.hash == old(self).hash,
                                self.is_weapon == old(self).is_weapon,
                                self.is_cloned == old(self).is_cloned,
                                self.color == old(self).color,
                                self.color_bool == old(self).color_bool,
                            decreases overrides.len() - n,
                        {
                            assert(overrides@.take(n + 1).drop_last() == overrides@.take(
                                n as int,
                            ));
                            if overrides[n].kind != 0 {
                                self.pending.push(
                                    HostHook::Status(
                                        StatusLine::Pre,
                                        overrides[n].kind,
                                        installer,
                                    ),
                                );
                            }
                            assert(self.pending@ =~= start + cloned_status_steps(
                                overrides@.take(n + 1),
                            ));
                            n += 1;
                        }
                        assert(overrides@.take(overrides@.len() as int) == overrides@);
                    }
                    if record.frame_hook.is_some() {
                        self.pending.push(
                            HostHook::Line(StatusLine::Main, Trampoline::WeaponOpff),
                        );
                    }
                },
                None => {},
            }
            assert(self.pending@ =~= before + weapon_steps(old(self)@, list));
        } else {
            self.pending.push(HostHook::Start(Trampoline::OnStart));
            self.pending.push(HostHook::Line(StatusLine::Main, Trampoline::Opff));
            assert(self.pending@ =~= before + fighter_steps());
        }
        self.pending.push(HostHook::AcmdInstaller(Acmd::Game, Priority::Default));
        self.pending.push(HostHook::AcmdInstaller(Acmd::Effect, Priority::Default));
        self.pending.push(HostHook::AcmdInstaller(Acmd::Sound, Priority::Default));
        self.pending.push(HostHook::AcmdInstaller(Acmd::Expression, Priority::Default));
        assert(self.pending@ =~= before + install_steps(old(self)@, list));
        installed.insert(self.hash);
        Some(self.pending.clone())
    }
}

/// Every kind has the variants it had, and the mark of conversion is as it
/// was.
pub open spec fn unchanged(before: Registry, after: Registry) -> bool {
    &&& after.is_migrated() == before.is_migrated()
    &&& forall|kind: u64| #[trigger] after.variants(kind) == before.variants(kind)
}

/// The registry and the base-name index after an agent registered the
/// command `name`: the command goes to the agent's variant under the hash of
/// its name, and its base name is recorded. For an agent of the invalid kind
/// nothing changes.
pub open spec fn command_registered(
    before: Registry,
    after: Registry,
    names_before: Map<u64, Seq<char>>,
    names_after: Map<u64, Seq<char>>,
    agent: AgentView,
    name: Seq<char>,
    script: AcmdScript,
) -> bool {
    &&& registers(before, after, agent, Field::Command(hash40_of(name), script))
    &&& names_after == if agent.hash != invalid_kind() {
        recorded(names_before, name)
    } else {
        names_before
    }
}

} // verus!
