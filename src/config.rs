use vstd::prelude::*;
use crate::cli::{Cli, Formats};
use crate::text::clone_strings;
use crate::threshold::Thresholds;

verus! {

/// The tool table of a project configuration file.
#[derive(Debug)]
pub struct PyprojectTool {
    pub deltaver: Option<DeltaverConfig>,
}

/// Settings read from a project configuration file; each may be absent.
#[derive(Debug)]
pub struct DeltaverConfig {
    pub path_to_file: Option<String>,
    pub file_format: Option<String>,
    pub excluded: Option<Vec<String>>,
    pub fail_on_avg: Option<u32>,
    pub fail_on_max: Option<u32>,
}

/// The settings of one run.
#[derive(Debug)]
pub struct Config {
    pub path_to_file: String,
    pub file_format: Formats,
    pub excluded: Vec<String>,
    pub fail_on_avg: Option<u32>,
    pub fail_on_max: Option<u32>,
}

/// A value given on the command line wins over the file's.
pub open spec fn prefer<T>(cli: Option<T>, file: Option<T>) -> Option<T> {
    match cli {
        Some(x) => Some(x),
        None => file,
    }
}

pub open spec fn file_excluded(file: Option<DeltaverConfig>) -> Seq<String> {
    match file {
        Some(c) => match c.excluded {
            Some(v) => v@,
            None => Seq::empty(),
        },
        None => Seq::empty(),
    }
}

pub open spec fn file_avg(file: Option<DeltaverConfig>) -> Option<u32> {
    match file {
        Some(c) => c.fail_on_avg,
        None => None,
    }
}

pub open spec fn file_max(file: Option<DeltaverConfig>) -> Option<u32> {
    match file {
        Some(c) => c.fail_on_max,
        None => None,
    }
}

impl Config {
    /// Merges the command line with the project file's settings, if any: a
    /// value given on the command line wins, an exclusion list counts as given
    /// when it is not empty; the path and the format come from the command
    /// line.
    pub fn from_cli(cli: &Cli, file_config: Option<DeltaverConfig>) -> (r: Config)
        ensures
            r.path_to_file == cli.path_to_file,
            r.file_format == cli.file_format,
            r.excluded@ == if cli.exclude_deps@.len() > 0 {
                cli.exclude_deps@
            } else {
                file_excluded(file_config)
            },
            r.fail_on_avg == prefer(cli.fail_on_average, file_avg(file_config)),
            r.fail_on_max == prefer(cli.fail_on_max, file_max(file_config)),
    {
        let (file_excluded, file_avg, file_max) = match file_config {
            Some(c) => (
                match c.excluded {
                    Some(v) => v,
                    None => Vec::new(),
                },
                c.fail_on_avg,
                c.fail_on_max,
            ),
            None => (Vec::new(), None, None),
        };
        let excluded = if cli.exclude_deps.len() > 0 {
            clone_strings(&cli.exclude_deps)
        } else {
            file_excluded
        };
        let fail_on_avg = match cli.fail_on_average {
            Some(x) => Some(x),
            None => file_avg,
        };
        let fail_on_max = match cli.fail_on_max {
            Some(x) => Some(x),
            None => file_max,
        };
        Config {
            path_to_file: cli.path_to_file.clone(),
            file_format: cli.file_format,
            excluded,
            fail_on_avg,
            fail_on_max,
        }
    }

    /// The limits this run enforces.
    pub fn thresholds(&self) -> (r: Thresholds)
        ensures
            r.max_avg_days == self.fail_on_avg,
            r.max_single_days == self.fail_on_max,
    {
        Thresholds { max_avg_days: self.fail_on_avg, max_single_days: self.fail_on_max }
    }
}

} // verus!
