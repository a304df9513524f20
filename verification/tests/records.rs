//! Tests of the database records and their optionally-set field types.

use csk_collection::records::{
    BoolType, CStrCSK, CharacterDatabaseEntry, Hash40Type, SeriesDatabaseEntry, StringType,
    UiStageData, Version,
};

#[test]
fn cstrcsk_empty_holds_nothing() {
    let s = CStrCSK::empty();
    assert!(s.get().is_none());
}

#[test]
fn cstrcsk_new_holds_the_string() {
    let s = CStrCSK::new("ui_chara_mario");
    assert_eq!(s.get().unwrap(), "ui_chara_mario");
}

#[test]
fn cstrcsk_set_replaces_the_string() {
    let s = CStrCSK::new("before").set("after");
    assert_eq!(s.get().unwrap(), "after");
}

#[test]
fn cstrcsk_default_is_empty() {
    let s: CStrCSK = Default::default();
    assert!(s.get().is_none());
}

#[test]
fn field_defaults_are_no_override() {
    assert!(matches!(StringType::default(), StringType::Optional(None)));
    assert!(matches!(Hash40Type::default(), Hash40Type::Optional(None)));
    assert!(matches!(BoolType::default(), BoolType::Optional(None)));
}

#[test]
fn character_entry_default_leaves_fields_unset() {
    let e = CharacterDatabaseEntry::default();
    assert_eq!(e.ui_chara_id, 0);
    assert!(e.clone_from_ui_chara_id.is_none());
    assert!(matches!(e.fighter_kind, Hash40Type::Optional(None)));
    assert!(matches!(e.name_id, StringType::Optional(None)));
}

#[test]
fn series_entry_overrides_survive() {
    let mut e = SeriesDatabaseEntry::default();
    e.ui_series_id = 0x1234;
    e.dlc_chara_id = Hash40Type::Overwrite(42);
    assert_eq!(e.ui_series_id, 0x1234);
    assert!(matches!(e.dlc_chara_id, Hash40Type::Overwrite(42)));
}

#[test]
fn stage_data_default_is_zeroed() {
    let d = UiStageData::default();
    assert_eq!(d.normal.nus3bank_path_hash, 0);
    assert_eq!(d.battle.tonelabel_path_hash, 0);
}

#[test]
fn version_is_plain_data() {
    let v = Version { major: 1, minor: 2, patch: 3 };
    let w = v;
    assert_eq!(w.major, 1);
    assert_eq!(w.minor, 2);
    assert_eq!(w.patch, 3);
}
