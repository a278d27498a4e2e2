//! Handle-based configuration registry, configuration flags, verbosity
//! reporting, and the pure logic of the configuration providers: array
//! merging with `_add` / `_remove` keys, empty-value filtering, wildcard
//! pattern parsing and the merge order of discovered files.

pub mod array_merge;
pub mod cascade;
pub mod config_flags;
pub mod errors;
pub mod filter;
pub mod fluent;
pub mod format;
pub mod handle_id;
pub mod json_helper;
pub mod naming;
pub mod registry;
pub mod stats;
pub mod text;
pub mod value;
pub mod verbosity;
pub mod wildcard;

pub use fluent::SuperConfig;
pub use handle_id::{
    HandleCounter, HandleID, generate_handle_id, get_current_handle_count, is_valid_handle_id,
    reset_handle_counter,
};
pub use registry::{ConfigHandle, ConfigRegistry};
pub use stats::RegistryStats;
pub use verbosity::VerbosityLevel;
pub use wildcard::builder::WildcardBuilder;
pub use wildcard::parsing::SearchStrategy;
pub use wildcard::provider::Wildcard;
pub use wildcard::sorting::MergeOrder;
