//! Validation and content addressing of untrusted media uploads.
//!
//! The library sniffs a buffer's signature to tell images and videos apart,
//! derives a deterministic content identifier, checks identifier and URL
//! syntax, and keeps an identifier-keyed store in which the first
//! registration of an identifier wins.

pub mod chars;
pub mod identifier;
pub mod sniff;
pub mod store;
pub mod url;

pub use identifier::{derive_identifier, identifier_matches, validate_file_with_uuid, validate_uuid};
pub use sniff::{
    classify, extension_matches_lowered, judge_signature, match_extension, validate_file, Family,
    MediaKind, Signature,
};
pub use store::{AddressStore, MediaRecord};
pub use url::validate_url;
