use vstd::prelude::*;

verus! {

/// The manifest dialects that can be read.
#[derive(Debug, Clone, Copy, PartialEq, Eq, Structural)]
pub enum Formats {
    PipFreeze,
    NpmLock,
    PoetryLock,
    Golang,
    MixLock,
}

impl Default for Formats {
    fn default() -> (r: Formats)
        ensures
            r == Formats::PipFreeze,
    {
        Formats::PipFreeze
    }
}

impl Formats {
    /// The dialect's name as written on the command line.
    pub fn as_str(&self) -> (r: &'static str)
        ensures
            r@ == match *self {
                Formats::PipFreeze => "pip-freeze"@,
                Formats::NpmLock => "npm-lock"@,
                Formats::PoetryLock => "poetry-lock"@,
                Formats::Golang => "golang"@,
                Formats::MixLock => "mix-lock"@,
            },
    {
        match self {
            Formats::PipFreeze => "pip-freeze",
            Formats::NpmLock => "npm-lock",
            Formats::PoetryLock => "poetry-lock",
            Formats::Golang => "golang",
            Formats::MixLock => "mix-lock",
        }
    }
}

/// The command-line arguments.
#[derive(Debug)]
pub struct Cli {
    /// Path of the manifest to read.
    pub path_to_file: String,
    pub file_format: Formats,
    pub fail_on_average: Option<u32>,
    pub fail_on_max: Option<u32>,
    /// Names of the packages left out of the statistics.
    pub exclude_deps: Vec<String>,
}

} // verus!
