//! The plain data records that the surrounding plugin hands to its host
//! engine: database entries for characters, series, music, stages and the
//! rest, together with the optionally-set field types they are built from.
//!
//! Every field of a record is either an explicit override
//! (`Overwrite`) or left to the engine's default (`Optional`), and that
//! distinction is load-bearing for how the engine merges records, so the two
//! cases stay separate variants rather than collapsing into a plain option.

use vstd::prelude::*;
use std::collections::HashMap;

verus! {

/// The plugin interface version.
#[derive(Debug, Copy, Clone)]
pub struct Version {
    pub major: u32,
    pub minor: u32,
    pub patch: u32,
}

/// An optionally-present owned string handed across the plugin boundary:
/// either no string at all, or one the handle owns outright.
#[derive(Debug, Clone)]
pub struct CStrCSK {
    pub value: Option<String>,
}

impl CStrCSK {
    /// A handle with no string set.
    pub fn empty() -> (r: Self)
        ensures
            r.value is None,
    {
        CStrCSK { value: None }
    }

    /// A handle holding a copy of `s`.
    pub fn new(s: &str) -> (r: Self)
        ensures
            r.value matches Some(v) && v@ == s@,
    {
        let entry = CStrCSK { value: None };
        entry.set(s)
    }

    /// Replaces whatever the handle held with a copy of `s`.
    pub fn set(self, s: &str) -> (r: Self)
        ensures
            r.value matches Some(v) && v@ == s@,
    {
        CStrCSK { value: Some(s.to_owned()) }
    }

    /// Consumes the handle and hands back the string it held, if any.
    pub fn get(self) -> (r: Option<String>)
        ensures
            r == self.value,
    {
        self.value
    }
}

impl Default for CStrCSK {
    fn default() -> (r: Self)
        ensures
            r.value is None,
    {
        CStrCSK::empty()
    }
}

/// An explicitly set string field, or no override.
#[derive(Debug, Clone)]
pub enum StringType {
    Overwrite(CStrCSK),
    Optional(Option<CStrCSK>),
}

impl Default for StringType {
    fn default() -> (r: Self)
        ensures
            r matches StringType::Optional(o) && o is None,
    {
        StringType::Optional(None)
    }
}

/// An explicitly set 40-bit hash field, or no override.
#[derive(Debug, Clone)]
pub enum Hash40Type {
    Overwrite(u64),
    Optional(Option<u64>),
}

impl Default for Hash40Type {
    fn default() -> (r: Self)
        ensures
            r matches Hash40Type::Optional(o) && o is None,
    {
        Hash40Type::Optional(None)
    }
}

/// An explicitly set signed 16-bit field, or no override.
#[derive(Debug, Clone)]
pub enum ShortType {
    Overwrite(i16),
    Optional(Option<i16>),
}

impl Default for ShortType {
    fn default() -> (r: Self)
        ensures
            r matches ShortType::Optional(o) && o is None,
    {
        ShortType::Optional(None)
    }
}

/// An explicitly set unsigned 16-bit field, or no override.
#[derive(Debug, Clone)]
pub enum UnsignedShortType {
    Overwrite(u16),
    Optional(Option<u16>),
}

impl Default for UnsignedShortType {
    fn default() -> (r: Self)
        ensures
            r matches UnsignedShortType::Optional(o) && o is None,
    {
        UnsignedShortType::Optional(None)
    }
}

/// An explicitly set signed 32-bit field, or no override.
#[derive(Debug, Clone)]
pub enum IntType {
    Overwrite(i32),
    Optional(Option<i32>),
}

impl Default for IntType {
    fn default() -> (r: Self)
        ensures
            r matches IntType::Optional(o) && o is None,
    {
        IntType::Optional(None)
    }
}

/// An explicitly set unsigned 32-bit field, or no override.
#[derive(Debug, Clone)]
pub enum UnsignedIntType {
    Overwrite(u32),
    Optional(Option<u32>),
}

impl Default for UnsignedIntType {
    fn default() -> (r: Self)
        ensures
            r matches UnsignedIntType::Optional(o) && o is None,
    {
        UnsignedIntType::Optional(None)
    }
}

/// An explicitly set boolean field, or no override.
#[derive(Debug, Clone)]
pub enum BoolType {
    Overwrite(bool),
    Optional(Option<bool>),
}

impl Default for BoolType {
    fn default() -> (r: Self)
        ensures
            r matches BoolType::Optional(o) && o is None,
    {
        BoolType::Optional(None)
    }
}

/// An explicitly set signed byte field, or no override.
#[derive(Debug, Clone)]
pub enum SignedByteType {
    Overwrite(i8),
    Optional(Option<i8>),
}

impl Default for SignedByteType {
    fn default() -> (r: Self)
        ensures
            r matches SignedByteType::Optional(o) && o is None,
    {
        SignedByteType::Optional(None)
    }
}

/// An explicitly set unsigned byte field, or no override.
#[derive(Debug, Clone)]
pub enum UnsignedByteType {
    Overwrite(u8),
    Optional(Option<u8>),
}

impl Default for UnsignedByteType {
    fn default() -> (r: Self)
        ensures
            r matches UnsignedByteType::Optional(o) && o is None,
    {
        UnsignedByteType::Optional(None)
    }
}

/// An explicitly set map from hashes to hash fields, or no override.
#[derive(Debug, Clone)]
pub enum Hash40Map {
    Overwrite(HashMap<u64, Hash40Type>),
    Optional(Option<HashMap<u64, Hash40Type>>),
}

impl Default for Hash40Map {
    fn default() -> (r: Self)
        ensures
            r matches Hash40Map::Optional(o) && o is None,
    {
        Hash40Map::Optional(None)
    }
}

/// An explicitly set map from hashes to byte fields, or no override.
#[derive(Debug, Clone)]
pub enum UnsignedByteMap {
    Overwrite(HashMap<u64, UnsignedByteType>),
    Optional(Option<HashMap<u64, UnsignedByteType>>),
}

impl Default for UnsignedByteMap {
    fn default() -> (r: Self)
        ensures
            r matches UnsignedByteMap::Optional(o) && o is None,
    {
        UnsignedByteMap::Optional(None)
    }
}

/// A character database record.
#[derive(Default, Debug, Clone)]
pub struct CharacterDatabaseEntry {
    pub ui_chara_id: u64,
    pub clone_from_ui_chara_id: Option<u64>,
    pub name_id: StringType,
    pub fighter_kind: Hash40Type,
    pub fighter_kind_corps: Hash40Type,
    pub ui_series_id: Hash40Type,
    pub fighter_type: Hash40Type,
    pub alt_chara_id: Hash40Type,
    pub exhibit_year: ShortType,
    pub exhibit_day_order: IntType,
    pub ext_skill_page_num: SignedByteType,
    pub is_img_ext_skill_page0: BoolType,
    pub is_img_ext_skill_page1: BoolType,
    pub is_img_ext_skill_page2: BoolType,
    pub skill_list_order: SignedByteType,
    pub disp_order: SignedByteType,
    pub save_no: SignedByteType,
    pub chara_count: SignedByteType,
    pub can_select: BoolType,
    pub is_usable_soundtest: BoolType,
    pub is_called_pokemon: BoolType,
    pub is_mii: BoolType,
    pub is_boss: BoolType,
    pub is_hidden_boss: BoolType,
    pub is_dlc: BoolType,
    pub is_patch: BoolType,
    pub is_plural_message: BoolType,
    pub is_plural_narration: BoolType,
    pub is_article: BoolType,
    pub extra_flags: IntType,
    pub has_multiple_face: BoolType,
    pub result_pf0: BoolType,
    pub result_pf1: BoolType,
    pub result_pf2: BoolType,
    pub color_num: UnsignedByteType,
    pub extra_index_maps: UnsignedByteMap,
    pub extra_hash_maps: Hash40Map,
    pub shop_item_tag: Hash40Type,
}

/// A series database record.
#[derive(Default, Debug, Clone)]
pub struct SeriesDatabaseEntry {
    pub ui_series_id: u64,
    pub clone_from_ui_series_id: Option<u64>,
    pub name_id: StringType,
    pub disp_order: SignedByteType,
    pub disp_order_sound: SignedByteType,
    pub save_no: SignedByteType,
    pub shown_as_series_in_directory: BoolType,
    pub is_dlc: BoolType,
    pub is_patch: BoolType,
    pub dlc_chara_id: Hash40Type,
    pub is_use_amiibo_bg: BoolType,
}

/// A music database root record.
#[derive(Default, Debug, Clone)]
pub struct BgmDatabaseRootEntry {
    pub ui_bgm_id: u64,
    pub clone_from_ui_bgm_id: Option<u64>,
    pub stream_set_id: Hash40Type,
    pub rarity: Hash40Type,
    pub record_type: Hash40Type,
    pub ui_gametitle_id: Hash40Type,
    pub ui_gametitle_id_1: Hash40Type,
    pub ui_gametitle_id_2: Hash40Type,
    pub ui_gametitle_id_3: Hash40Type,
    pub ui_gametitle_id_4: Hash40Type,
    pub name_id: StringType,
    pub save_no: ShortType,
    pub test_disp_order: ShortType,
    pub menu_value: IntType,
    pub jp_region: BoolType,
    pub other_region: BoolType,
    pub possessed: BoolType,
    pub prize_lottery: BoolType,
    pub shop_price: UnsignedIntType,
    pub count_target: BoolType,
    pub menu_loop: UnsignedByteType,
    pub is_selectable_stage_make: BoolType,
    pub is_selectable_movie_edit: BoolType,
    pub is_selectable_original: BoolType,
    pub is_dlc: BoolType,
    pub is_patch: BoolType,
    pub dlc_ui_chara_id: Hash40Type,
    pub dlc_mii_hat_motif_id: Hash40Type,
    pub dlc_mii_body_motif_id: Hash40Type,
    pub unk_0x0e6b57e593: BoolType,
}

/// A stream-set record.
#[derive(Default, Debug, Clone)]
pub struct StreamSetEntry {
    pub stream_set_id: u64,
    pub clone_from_stream_set_id: Option<u64>,
    pub special_category: Hash40Type,
    pub info0: Hash40Type,
    pub info1: Hash40Type,
    pub info2: Hash40Type,
    pub info3: Hash40Type,
    pub info4: Hash40Type,
    pub info5: Hash40Type,
    pub info6: Hash40Type,
    pub info7: Hash40Type,
    pub info8: Hash40Type,
    pub info9: Hash40Type,
    pub info10: Hash40Type,
    pub info11: Hash40Type,
    pub info12: Hash40Type,
    pub info13: Hash40Type,
    pub info14: Hash40Type,
    pub info15: Hash40Type,
}

/// An assigned-info record.
#[derive(Default, Debug, Clone)]
pub struct AssignedInfoEntry {
    pub info_id: u64,
    pub clone_from_info_id: Option<u64>,
    pub stream_id: Hash40Type,
    pub condition: Hash40Type,
    pub condition_process: Hash40Type,
    pub start_frame: IntType,
    pub change_fadein_frame: IntType,
    pub change_start_delay_frame: IntType,
    pub change_fadeout_frame: IntType,
    pub change_stop_delay_frame: IntType,
    pub menu_change_fadein_frame: IntType,
    pub menu_change_start_delay_frame: IntType,
    pub menu_change_fadeout_frame: IntType,
    pub menu_change_stop_delay_frame: IntType,
}

/// A stream-property record.
#[derive(Default, Debug, Clone)]
pub struct StreamPropertyEntry {
    pub stream_id: u64,
    pub clone_from_stream_id: Option<u64>,
    pub data_name0: StringType,
    pub data_name1: StringType,
    pub data_name2: StringType,
    pub data_name3: StringType,
    pub data_name4: StringType,
    pub loop_track: UnsignedByteType,
    pub end_point: StringType,
    pub fadeout_frame: UnsignedShortType,
    pub start_point_suddendeath: StringType,
    pub start_point_transition: StringType,
    pub start_point0: StringType,
    pub start_point1: StringType,
    pub start_point2: StringType,
    pub start_point3: StringType,
    pub start_point4: StringType,
}

/// One playlist slot: a track with an order and an incidence per playlist
/// position.
#[derive(Default, Debug, Clone)]
pub struct BgmPlaylistEntry {
    pub ui_bgm_id: u64,
    pub order0: ShortType,
    pub incidence0: UnsignedShortType,
    pub order1: ShortType,
    pub incidence1: UnsignedShortType,
    pub order2: ShortType,
    pub incidence2: UnsignedShortType,
    pub order3: ShortType,
    pub incidence3: UnsignedShortType,
    pub order4: ShortType,
    pub incidence4: UnsignedShortType,
    pub order5: ShortType,
    pub incidence5: UnsignedShortType,
    pub order6: ShortType,
    pub incidence6: UnsignedShortType,
    pub order7: ShortType,
    pub incidence7: UnsignedShortType,
    pub order8: ShortType,
    pub incidence8: UnsignedShortType,
    pub order9: ShortType,
    pub incidence9: UnsignedShortType,
    pub order10: ShortType,
    pub incidence10: UnsignedShortType,
    pub order11: ShortType,
    pub incidence11: UnsignedShortType,
    pub order12: ShortType,
    pub incidence12: UnsignedShortType,
    pub order13: ShortType,
    pub incidence13: UnsignedShortType,
    pub order14: ShortType,
    pub incidence14: UnsignedShortType,
    pub order15: ShortType,
    pub incidence15: UnsignedShortType,
}

/// A stage database record.
#[derive(Default, Debug, Clone)]
pub struct StageDatabaseEntry {
    pub ui_stage_id: u64,
    pub clone_from_ui_stage_id: Option<u64>,
    pub name_id: StringType,
    pub save_no: ShortType,
    pub ui_series_id: Hash40Type,
    pub can_select: BoolType,
    pub disp_order: SignedByteType,
    pub stage_place_id: Hash40Type,
    pub secret_stage_place_id: Hash40Type,
    pub can_demo: BoolType,
    pub is_8player_stage: BoolType,
    pub is_usable_flag: BoolType,
    pub is_usable_amiibo: BoolType,
    pub secret_command_id: Hash40Type,
    pub secret_command_id_joycon: Hash40Type,
    pub bgm_set_id: Hash40Type,
    pub bgm_setting_no: UnsignedByteType,
    pub bgm_selector: BoolType,
    pub is_dlc: BoolType,
    pub is_patch: BoolType,
    pub dlc_chara_id: Hash40Type,
    pub extra_hash_maps: Hash40Map,
}

/// A game-title database record.
#[derive(Default, Debug, Clone)]
pub struct GametitleDatabaseEntry {
    pub ui_gametitle_id: u64,
    pub clone_from_ui_gametitle_id: Option<u64>,
    pub name_id: StringType,
    pub ui_series_id: Hash40Type,
    pub shown_as_series_in_directory: BoolType,
    pub release: IntType,
}

/// A tips database record.
#[derive(Default, Debug, Clone)]
pub struct TipsDatabaseEntry {
    pub ui_tips_id: u64,
    pub clone_from_ui_tips_id: Option<u64>,
    pub save_no: UnsignedIntType,
    pub level: Hash40Type,
    pub topic: Hash40Type,
    pub skill_kind: Hash40Type,
    pub ui_tips_unlock_id: Hash40Type,
    pub disp_order: UnsignedIntType,
    pub type_0: Hash40Type,
    pub key_0: Hash40Type,
    pub type_1: Hash40Type,
    pub key_1: Hash40Type,
    pub type_2: Hash40Type,
    pub key_2: Hash40Type,
    pub type_3: Hash40Type,
    pub key_3: Hash40Type,
    pub type_4: Hash40Type,
    pub key_4: Hash40Type,
    pub type_5: Hash40Type,
    pub key_5: Hash40Type,
    pub type_6: Hash40Type,
    pub key_6: Hash40Type,
    pub type_7: Hash40Type,
    pub key_7: Hash40Type,
    pub type_8: Hash40Type,
    pub key_8: Hash40Type,
}

/// An amiibo database record.
#[derive(Default, Debug, Clone)]
pub struct AmiiboDatabaseEntry {
    pub ui_amiibo_id: u64,
    pub clone_from_ui_amiibo_id: Option<u64>,
    pub ui_chara_id: Hash40Type,
    pub is_valid: BoolType,
    pub unk_0x13a26bd6a0: BoolType,
    pub nfp_character_id_upper: UnsignedShortType,
    pub nfp_character_id_lower: UnsignedByteType,
    pub enable_unknown_numbering_id: BoolType,
    pub nfp_numbering_id: UnsignedShortType,
    pub default_color: UnsignedByteType,
}

/// A Mii body database record.
#[derive(Default, Debug, Clone)]
pub struct MiiBodyDatabaseEntry {
    pub ui_mii_body_id: u64,
    pub clone_from_ui_mii_body_id: Option<u64>,
    pub name_id: StringType,
    pub mii_body_id: StringType,
    pub valid_resource: SignedByteType,
    pub motif_gender: Hash40Type,
    pub motif_id: Hash40Type,
    pub text_id: StringType,
    pub replace_id: StringType,
    pub normal_suit: UnsignedByteType,
    pub dlc_type: Hash40Type,
    pub is_patch: BoolType,
    pub save_no: ShortType,
    pub mii_body_type: Hash40Type,
    pub gender: Hash40Type,
    pub unk_0x18ef467708: BoolType,
    pub prize_lottery: BoolType,
    pub rarity: Hash40Type,
    pub disp_order: IntType,
    pub shop_price: UnsignedIntType,
    pub color_num: IntType,
    pub swing_enabled: BoolType,
    pub shop_item_tag: Hash40Type,
}

/// The per-screen resource hashes of one stage.
#[derive(Default, Debug, Clone)]
pub struct UiStageResources {
    pub stage_load_group_hash: u64,
    pub effect_load_group_hash: u64,
    pub nus3bank_path_hash: u64,
    pub sqb_path_hash: u64,
    pub nus3audio_path_hash: u64,
    pub tonelabel_path_hash: u64,
}

/// The resource hashes of one stage for its three screen variants.
#[derive(Default, Debug, Clone)]
pub struct UiStageData {
    pub normal: UiStageResources,
    pub end: UiStageResources,
    pub battle: UiStageResources,
}

} // verus!
