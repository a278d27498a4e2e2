pub mod builder;
pub mod parsing;
pub mod paths;
pub mod provider;
pub mod sorting;
