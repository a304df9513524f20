//! A verified patcher for "NUS3"-style chunked audio-bank containers,
//! together with the plain data records that the surrounding plugin hands to
//! its host engine.
//!
//! The heart of the crate is [`nus3bank::append_entries_to_nus3bank`], which
//! parses a container held in memory, locates its "TONE" name table, clones
//! a template entry's metadata block and re-serialises the whole container
//! with new named entries appended, every size field corrected.

pub mod bytes_le;
pub mod nus3bank;
pub mod records;
pub mod scan;

pub use bytes_le::read_u32;
pub use nus3bank::append_entries_to_nus3bank;
pub use nus3bank::PatchError;
pub use records::AmiiboDatabaseEntry;
pub use records::AssignedInfoEntry;
pub use records::BgmDatabaseRootEntry;
pub use records::BgmPlaylistEntry;
pub use records::BoolType;
pub use records::CStrCSK;
pub use records::CharacterDatabaseEntry;
pub use records::GametitleDatabaseEntry;
pub use records::Hash40Map;
pub use records::Hash40Type;
pub use records::IntType;
pub use records::MiiBodyDatabaseEntry;
pub use records::SeriesDatabaseEntry;
pub use records::ShortType;
pub use records::SignedByteType;
pub use records::StageDatabaseEntry;
pub use records::StreamPropertyEntry;
pub use records::StreamSetEntry;
pub use records::StringType;
pub use records::TipsDatabaseEntry;
pub use records::UiStageData;
pub use records::UiStageResources;
pub use records::UnsignedByteMap;
pub use records::UnsignedByteType;
pub use records::UnsignedIntType;
pub use records::UnsignedShortType;
pub use records::Version;
pub use scan::get_sub_meta_offset_and_size;
