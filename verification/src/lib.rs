//! Logic for creating a release through an external hosting CLI: deciding
//! the next release tag from a priority-ordered set of sources, incrementing
//! version-shaped tags, and assembling the argument list handed to the
//! external invocation.
//!
//! All decisions are pure functions with contracts; reading files, the
//! environment, the clock or the disk, and launching the external tool are
//! the caller's part, driven by the step values these functions return.

pub mod command;
pub mod errors;
pub mod listing;
pub mod manifest;
pub mod numbers;
pub mod resolve;
pub mod tag;
pub mod text;
pub mod util;

pub use command::{build_release_args, gh_release_create};
pub use errors::TagError;
pub use listing::get_gh_current_tag;
pub use manifest::{is_toml_path, try_determine_version_from, CargoToml, CargoTomlPackage, ManifestFile};
pub use resolve::{
    generate_new_tag, generate_new_tag_from_listing, resolve_next_tag, try_get_tag_name, InferStep,
    TagSource,
};
pub use tag::generate_tag;
pub use util::{
    get_current_timestamp, is_file, parse_uint, straighten_command_string, StringUtility,
};
