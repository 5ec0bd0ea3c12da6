use slotted::hooks::Acmd;
use slotted::suffix::{hex, installer_hash, installer_name, ScriptSuffix, SUFFIX_BYTES};

#[test]
fn hex_writes_two_lower_case_digits_per_byte() {
    assert_eq!(hex(&[0xde, 0xad, 0xbe, 0xef]), "deadbeef");
    assert_eq!(hex(&[0x00, 0x01, 0x0a, 0xf0]), "00010af0");
    assert_eq!(hex(&[0x9c]), "9c");
    assert_eq!(hex(&[]), "");
}

#[test]
fn hex_covers_every_byte() {
    for byte in 0..=255u8 {
        assert_eq!(hex(&[byte]), format!("{:02x}", byte));
    }
}

#[test]
fn installer_names_end_in_the_suffix() {
    assert_eq!(installer_name(Acmd::Game, "0a1b2c3d"), "game_acmd_installer0a1b2c3d");
    assert_eq!(installer_name(Acmd::Effect, "0a1b2c3d"), "effect_acmd_installer0a1b2c3d");
    assert_eq!(installer_name(Acmd::Sound, "0a1b2c3d"), "sound_acmd_installer0a1b2c3d");
    assert_eq!(installer_name(Acmd::Expression, ""), "expression_acmd_installer");
}

#[test]
fn installer_hash_is_the_hash_of_the_name() {
    assert_eq!(
        installer_hash(Acmd::Sound, "deadbeef"),
        hash40::hash40("sound_acmd_installerdeadbeef").0
    );
    assert_ne!(installer_hash(Acmd::Sound, "deadbeef"), installer_hash(Acmd::Game, "deadbeef"));
}

#[test]
fn suffix_is_drawn_once() {
    assert_eq!(SUFFIX_BYTES, 4);
    let mut suffix = ScriptSuffix::new();
    assert!(!suffix.is_set());
    assert_eq!(suffix.get(), None);
    suffix.ensure(&[0x12, 0x34, 0xab, 0xcd]);
    assert!(suffix.is_set());
    assert_eq!(suffix.get(), Some(&"1234abcd".to_string()));
    suffix.ensure(&[0xff, 0xff, 0xff, 0xff]);
    assert_eq!(suffix.get(), Some(&"1234abcd".to_string()));
}

#[test]
fn suffix_of_zero_bytes_counts_as_drawn() {
    let mut suffix = ScriptSuffix::new();
    suffix.ensure(&[0, 0, 0, 0]);
    assert!(suffix.is_set());
    assert_eq!(suffix.get(), Some(&"00000000".to_string()));
}
