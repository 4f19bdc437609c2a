//! Versioned decoding support: a caller-supplied version map selects, for each
//! type, which of its declared shapes a piece of data is decoded as.
//!
//! A container type declares its versions in a list: each version number is
//! either a historical type that converts into the container, or the container
//! itself. `resolve` and `dispatch` route a decode by that list and a version
//! map; `dispatch_table` lays the same routing out as the arms of a match, and
//! `expand_derive_deserialize_versioned` writes those arms out as the source
//! of an implementation.

pub mod convert;
pub mod de;
pub mod declaration;
pub mod error;
pub mod resolve;
pub mod table;
pub mod text;
pub mod version_map;

pub use convert::{convert_one, convert_optional, convert_variant};
pub use de::{expand_derive_deserialize_versioned, render_impl, AccessPattern, Container};
pub use declaration::{check_versions, last_version, DeclarationError, PathOrSelf, Version};
pub use error::{wrap_decode, Error, InvalidVersionError};
pub use resolve::{dispatch, resolve, Route};
pub use table::{dispatch_table, select, Arm};
pub use text::to_decimal;
pub use version_map::{DefaultVersionMap, VersionMap, VersionMapIter};
