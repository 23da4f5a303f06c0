pub mod cli;
pub mod config;
pub mod ecosystem;
pub mod package;
pub mod parsed_reqs;
pub mod parsers;
pub mod registry;
pub mod staleness;
pub mod text;
pub mod threshold;

pub use config::Config;
pub use ecosystem::Ecosystem;
pub use package::{Date, Package};
pub use parsers::{parse_dependency_line, Parser, RequirementsParser};
