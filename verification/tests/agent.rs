use std::collections::HashSet;

use slotted::agent::{cloned_weapon_name, HostHook, SlottedAgent, Trampoline};
use slotted::hooks::{
    Acmd, AcmdHook, AcmdScript, LineHook, Priority, StateHook, StatusHook, StatusLine,
    StatusScript,
};
use slotted::names::BaseNameIndex;
use slotted::registry::Registry;

fn hash(name: &str) -> u64 {
    hash40::hash40(name).0
}

fn installers() -> Vec<HostHook> {
    vec![
        HostHook::AcmdInstaller(Acmd::Game, Priority::Default),
        HostHook::AcmdInstaller(Acmd::Effect, Priority::Default),
        HostHook::AcmdInstaller(Acmd::Sound, Priority::Default),
        HostHook::AcmdInstaller(Acmd::Expression, Priority::Default),
    ]
}

#[test]
fn fighter_name_gives_fighter_kind() {
    let agent = SlottedAgent::new("mario", 0, -1);
    assert_eq!(agent.hash(), hash("fighter_kind_mario"));
    assert_eq!(agent.name(), "mario");
    assert!(!agent.is_weapon());
    assert!(!agent.is_cloned());
    assert!(agent.is_valid());
    assert!(agent.color().is_empty());
}

#[test]
fn weapon_name_gives_weapon_kind() {
    let agent = SlottedAgent::new("mario_fireball", -1, 3);
    assert_eq!(agent.hash(), hash("weapon_kind_mario_fireball"));
    assert!(agent.is_weapon());
    assert!(agent.is_valid());
}

#[test]
fn name_known_as_both_counts_as_fighter() {
    let agent = SlottedAgent::new("link", 2, 5);
    assert_eq!(agent.hash(), hash("fighter_kind_link"));
    assert!(!agent.is_weapon());
}

#[test]
fn unknown_name_gives_invalid_kind() {
    let agent = SlottedAgent::new("nobody", -1, -1);
    assert_eq!(agent.hash(), hash("invalid"));
    assert!(!agent.is_weapon());
    assert!(!agent.is_valid());
}

#[test]
fn kind_hash_is_not_the_name_hash() {
    let agent = SlottedAgent::new("mario", 0, -1);
    assert_ne!(agent.hash(), hash("mario"));
    assert_ne!(agent.hash(), hash("weapon_kind_mario"));
}

#[test]
fn set_color2_gives_the_color_set() {
    let mut agent = SlottedAgent::new("mario", 0, -1);
    agent.set_color2(vec![3, 4]);
    assert_eq!(agent.color(), &vec![3, 4]);
}

#[test]
fn set_color_keeps_the_color_set_empty() {
    let mut registry = Registry::new();
    let mut mask = [false; 256];
    mask[6] = true;
    let mut agent = SlottedAgent::new("mario", 0, -1);
    agent.set_color(&mask).on_line(&mut registry, StatusLine::Main, LineHook(1));
    assert!(agent.color().is_empty());
    let record = registry.variant(agent.hash(), 0).unwrap();
    assert!(record.color_set.is_empty());
    assert_eq!(record.legacy_color_mask, Some(mask));
}

#[test]
fn cloned_weapon_takes_the_kind_of_the_source() {
    let mut agent = SlottedAgent::new("my_fireball", -1, -1);
    assert!(!agent.is_valid());
    agent.weapon_cloned_from("mario", "fireball", 12);
    assert_eq!(agent.hash(), hash("weapon_kind_mario_fireball"));
    assert!(agent.is_weapon());
    assert!(agent.is_cloned());
    assert!(agent.is_valid());
    assert_eq!(agent.name(), "my_fireball");
}

#[test]
fn clone_of_unknown_weapon_changes_nothing() {
    let mut agent = SlottedAgent::new("mario", 0, -1);
    agent.weapon_cloned_from("mario", "nothing", -1);
    assert_eq!(agent.hash(), hash("fighter_kind_mario"));
    assert!(!agent.is_weapon());
    assert!(!agent.is_cloned());
}

#[test]
fn cloned_weapon_name_joins_with_underscore() {
    assert_eq!(cloned_weapon_name("mario", "fireball"), "mario_fireball");
    assert_eq!(cloned_weapon_name("", ""), "_");
}

#[test]
fn two_frame_hooks_for_the_default_variant_leave_one_record() {
    let mut registry = Registry::new();
    let h1 = LineHook(0x10);
    let h2 = LineHook(0x20);
    let mut first = SlottedAgent::new("mario", 0, -1);
    first.set_color2(Vec::new()).on_line(&mut registry, StatusLine::Main, h1);
    let mut second = SlottedAgent::new("mario", 0, -1);
    second.set_color2(Vec::new()).on_line(&mut registry, StatusLine::Main, h2);
    let kind = hash("fighter_kind_mario");
    assert_eq!(registry.variant_count(kind), 1);
    let record = registry.variant(kind, 0).unwrap();
    assert!(record.color_set.is_empty());
    assert_eq!(record.frame_hook, Some(h2));
}

#[test]
fn on_line_ignores_the_line() {
    let mut registry = Registry::new();
    let mut agent = SlottedAgent::new("mario", 0, -1);
    agent.on_line(&mut registry, StatusLine::Exec, LineHook(5));
    assert_eq!(registry.variant(agent.hash(), 0).unwrap().frame_hook, Some(LineHook(5)));
}

#[test]
fn acmd_registers_under_name_hash_and_category() {
    let mut registry = Registry::new();
    let mut names = BaseNameIndex::new();
    let mut agent = SlottedAgent::new("mario", 0, -1);
    agent
        .set_color2(vec![1, 2])
        .acmd(&mut registry, &mut names, "game_jump", AcmdHook(1), Priority::Default)
        .acmd(&mut registry, &mut names, "effect_jump", AcmdHook(2), Priority::Low)
        .acmd(&mut registry, &mut names, "sound_jump", AcmdHook(3), Priority::High)
        .acmd(&mut registry, &mut names, "expression_jump", AcmdHook(4), Priority::Default)
        .acmd(&mut registry, &mut names, "jump", AcmdHook(5), Priority::Default);
    let kind = agent.hash();
    assert_eq!(registry.variant_count(kind), 1);
    let record = registry.variant(kind, 0).unwrap();
    assert_eq!(record.color_set, vec![1, 2]);
    assert_eq!(record.commands.len(), 4);
    assert_eq!(
        record.commands.get(&hash("game_jump")),
        Some(&AcmdScript { category: Acmd::Game, function: AcmdHook(1) })
    );
    assert_eq!(
        record.commands.get(&hash("effect_jump")),
        Some(&AcmdScript { category: Acmd::Effect, function: AcmdHook(2) })
    );
    assert_eq!(
        record.commands.get(&hash("sound_jump")),
        Some(&AcmdScript { category: Acmd::Sound, function: AcmdHook(3) })
    );
    assert_eq!(
        record.commands.get(&hash("expression_jump")),
        Some(&AcmdScript { category: Acmd::Expression, function: AcmdHook(4) })
    );
    assert_eq!(record.commands.get(&hash("jump")), None);
    assert_eq!(names.get(hash("game_jump")), Some(&"jump".to_string()));
}

#[test]
fn category_methods_do_not_look_at_the_prefix() {
    let mut registry = Registry::new();
    let mut names = BaseNameIndex::new();
    let mut agent = SlottedAgent::new("mario", 0, -1);
    agent
        .game_acmd(&mut registry, &mut names, "sound_land", AcmdHook(1), Priority::Default)
        .effect_acmd(&mut registry, &mut names, "land", AcmdHook(2), Priority::Default)
        .sound_acmd(&mut registry, &mut names, "sound_run", AcmdHook(3), Priority::Default)
        .expression_acmd(&mut registry, &mut names, "expression_run", AcmdHook(4), Priority::Default);
    let record = registry.variant(agent.hash(), 0).unwrap();
    assert_eq!(
        record.commands.get(&hash("sound_land")),
        Some(&AcmdScript { category: Acmd::Game, function: AcmdHook(1) })
    );
    assert_eq!(
        record.commands.get(&hash("land")),
        Some(&AcmdScript { category: Acmd::Effect, function: AcmdHook(2) })
    );
    assert_eq!(
        record.commands.get(&hash("sound_run")),
        Some(&AcmdScript { category: Acmd::Sound, function: AcmdHook(3) })
    );
    assert_eq!(
        record.commands.get(&hash("expression_run")),
        Some(&AcmdScript { category: Acmd::Expression, function: AcmdHook(4) })
    );
    assert_eq!(names.get(hash("game_land")), Some(&"land".to_string()));
    assert_eq!(names.get(hash("game_run")), Some(&"run".to_string()));
}

#[test]
fn status_overrides_pile_up_in_order() {
    let mut registry = Registry::new();
    let mut agent = SlottedAgent::new("mario", 0, -1);
    agent
        .set_color2(vec![1])
        .status(&mut registry, StatusLine::Pre, 3, StatusHook(1))
        .status(&mut registry, StatusLine::Main, 3, StatusHook(2))
        .status(&mut registry, StatusLine::Pre, 3, StatusHook(3));
    let record = registry.variant(agent.hash(), 0).unwrap();
    assert_eq!(
        record.status_overrides,
        vec![
            StatusScript { line: StatusLine::Pre, kind: 3, function: StatusHook(1) },
            StatusScript { line: StatusLine::Main, kind: 3, function: StatusHook(2) },
            StatusScript { line: StatusLine::Pre, kind: 3, function: StatusHook(3) },
        ]
    );
}

#[test]
fn on_start_sets_the_start_hook() {
    let mut registry = Registry::new();
    let mut agent = SlottedAgent::new("mario", 0, -1);
    agent.on_start(&mut registry, StateHook(1)).on_start(&mut registry, StateHook(2));
    assert_eq!(registry.variant_count(agent.hash()), 1);
    assert_eq!(registry.variant(agent.hash(), 0).unwrap().start_hook, Some(StateHook(2)));
}

#[test]
fn registrations_for_an_unknown_name_are_dropped() {
    let mut registry = Registry::new();
    let mut names = BaseNameIndex::new();
    let mut agent = SlottedAgent::new("nobody", -1, -1);
    agent
        .set_color2(vec![1])
        .on_line(&mut registry, StatusLine::Main, LineHook(1))
        .on_start(&mut registry, StateHook(2))
        .status(&mut registry, StatusLine::Pre, 0, StatusHook(3))
        .acmd(&mut registry, &mut names, "game_jump", AcmdHook(4), Priority::Default)
        .sound_acmd(&mut registry, &mut names, "sound_jump", AcmdHook(5), Priority::Default);
    assert_eq!(registry.variant_count(hash("invalid")), 0);
    assert_eq!(names.get(hash("game_jump")), None);
}

#[test]
fn fighter_installs_start_and_frame_callbacks() {
    let registry = Registry::new();
    let mut installed = HashSet::new();
    let mut agent = SlottedAgent::new("mario", 0, -1);
    let hooks = agent.install(&registry, &mut installed).unwrap();
    let mut expected = vec![
        HostHook::Start(Trampoline::OnStart),
        HostHook::Line(StatusLine::Main, Trampoline::Opff),
    ];
    expected.extend(installers());
    assert_eq!(hooks, expected);
    assert!(installed.contains(&hash("fighter_kind_mario")));
    assert_eq!(installed.len(), 1);
}

#[test]
fn install_happens_once_per_kind() {
    let registry = Registry::new();
    let mut installed = HashSet::new();
    let mut first = SlottedAgent::new("mario", 0, -1);
    let mut second = SlottedAgent::new("mario", 0, -1);
    let mut other = SlottedAgent::new("luigi", 1, -1);
    assert!(first.install(&registry, &mut installed).is_some());
    assert!(first.install(&registry, &mut installed).is_none());
    assert!(second.install(&registry, &mut installed).is_none());
    assert!(other.install(&registry, &mut installed).is_some());
    assert_eq!(installed.len(), 2);
}

#[test]
fn hooks_handed_over_before_come_first() {
    let registry = Registry::new();
    let mut installed = HashSet::new();
    let mut agent = SlottedAgent::new("mario", 0, -1);
    agent.on_init(StateHook(1)).on_end(StateHook(2)).on_fini(StateHook(3));
    let hooks = agent.install(&registry, &mut installed).unwrap();
    let mut expected = vec![
        HostHook::Init(StateHook(1)),
        HostHook::End(StateHook(2)),
        HostHook::Fini(StateHook(3)),
        HostHook::Start(Trampoline::OnStart),
        HostHook::Line(StatusLine::Main, Trampoline::Opff),
    ];
    expected.extend(installers());
    assert_eq!(hooks, expected);
}

#[test]
fn weapon_installs_its_installer_before_status_zero() {
    let mut registry = Registry::new();
    let mut installed = HashSet::new();
    let mut agent = SlottedAgent::new("mario_fireball", -1, 3);
    agent
        .set_color2(vec![1])
        .status(&mut registry, StatusLine::Main, 5, StatusHook(1));
    let hooks = agent.install(&registry, &mut installed).unwrap();
    let mut expected = vec![HostHook::Status(StatusLine::Pre, 0, Trampoline::WeaponInstallerPre)];
    expected.extend(installers());
    assert_eq!(hooks, expected);
}

#[test]
fn weapon_with_frame_hook_installs_the_frame_callback() {
    let mut registry = Registry::new();
    let mut installed = HashSet::new();
    let mut agent = SlottedAgent::new("mario_fireball", -1, 3);
    agent.set_color2(vec![1]).on_line(&mut registry, StatusLine::Main, LineHook(9));
    let hooks = agent.install(&registry, &mut installed).unwrap();
    let mut expected = vec![
        HostHook::Status(StatusLine::Pre, 0, Trampoline::WeaponInstallerPre),
        HostHook::Line(StatusLine::Main, Trampoline::WeaponOpff),
    ];
    expected.extend(installers());
    assert_eq!(hooks, expected);
}

#[test]
fn weapon_looks_at_its_own_variant_only() {
    let mut registry = Registry::new();
    let mut installed = HashSet::new();
    let mut with_hook = SlottedAgent::new("mario_fireball", -1, 3);
    with_hook.set_color2(vec![1]).on_line(&mut registry, StatusLine::Main, LineHook(9));
    let mut without = SlottedAgent::new("mario_fireball", -1, 3);
    without.set_color2(vec![2]);
    let hooks = without.install(&registry, &mut installed).unwrap();
    let mut expected = vec![HostHook::Status(StatusLine::Pre, 0, Trampoline::WeaponInstallerPre)];
    expected.extend(installers());
    assert_eq!(hooks, expected);
}

#[test]
fn cloned_weapon_installs_before_every_overridden_status() {
    let mut registry = Registry::new();
    let mut installed = HashSet::new();
    let mut agent = SlottedAgent::new("my_fireball", -1, -1);
    agent
        .weapon_cloned_from("mario", "fireball", 4)
        .set_color2(vec![1])
        .status(&mut registry, StatusLine::Main, 5, StatusHook(1))
        .status(&mut registry, StatusLine::Pre, 0, StatusHook(2))
        .status(&mut registry, StatusLine::End, 7, StatusHook(3))
        .on_line(&mut registry, StatusLine::Main, LineHook(4));
    let hooks = agent.install(&registry, &mut installed).unwrap();
    let mut expected = vec![
        HostHook::Status(StatusLine::Pre, 0, Trampoline::ClonedWeaponInstallerPre),
        HostHook::Status(StatusLine::Pre, 5, Trampoline::ClonedWeaponInstallerPre),
        HostHook::Status(StatusLine::Pre, 7, Trampoline::ClonedWeaponInstallerPre),
        HostHook::Line(StatusLine::Main, Trampoline::WeaponOpff),
    ];
    expected.extend(installers());
    assert_eq!(hooks, expected);
    assert!(installed.contains(&hash("weapon_kind_mario_fireball")));
}
