//! Configuration acquisition for an OS image-building tool: loading and
//! validating a build descriptor, and resolving the running system's
//! identity attributes from an on-disk key-value file.
use vstd::prelude::*;

pub mod build_config;
pub mod error;
pub mod os_release;
pub mod paths;
pub mod strutil;
pub mod toml_doc;

pub use build_config::BuildConfig;
pub use error::{ConfigError, IdentityError};
pub use os_release::OsRelease;

verus! {

/// True when the sequence of characters is one of the four accepted
/// image type labels.
pub open spec fn valid_image_type(s: Seq<char>) -> bool {
    s == "extra"@ || s == "rootfs"@ || s == "kernel"@ || s == "realmfs"@
}

} // verus!

