//! Resolves which named toolchain applies to a working directory, given a
//! per-user override database mapping filesystem paths to toolchain names.
//!
//! The library has three parts: normalization of toolchain names into their
//! canonical short form, an override store that unifies two on-disk database
//! formats behind one lookup, and a resolver that walks ancestor directories
//! to find the most specific applicable override.

pub mod normalize;
pub mod resolver;
pub mod settings;
pub mod store;
pub mod text;

pub use normalize::clean_toolchain_name;
pub use normalize::with_date;
pub use resolver::Resolution;
pub use resolver::parent_dir;
pub use resolver::resolve;
pub use resolver::resolve_toolchain;
pub use settings::build_structured;
pub use settings::load_settings_toml;
pub use store::MalformedDatabase;
pub use store::OverridesDatabase;
pub use store::load_plain_overrides;
pub use text::str_eq;
pub use text::str_starts_with;
