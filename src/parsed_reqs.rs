use vstd::prelude::*;
use crate::cli::Formats;
use crate::package::{Date, Package};
use crate::parsers::{deps_view, manifest_dependencies, manifest_deps, DependencyRef, ParseError};
use crate::registry::ErrorKind;
use crate::staleness::PackageError;

verus! {

/// A manifest's text, waiting to be read into dependencies.
#[derive(Debug, Default)]
pub struct ParsedReqs {
    file_content: String,
}

impl ParsedReqs {
    pub fn new(file_content: &str) -> (r: ParsedReqs)
        ensures
            r.content() == file_content@,
    {
        ParsedReqs { file_content: file_content.to_owned() }
    }

    pub closed spec fn content(&self) -> Seq<char> {
        self.file_content@
    }

    /// The declared dependencies, in line order; an error where there are
    /// none.
    pub fn dependencies(&self) -> (r: Result<Vec<DependencyRef>, ParseError>)
        ensures
            manifest_deps(self.content()).len() == 0 <==> r is Err,
            r is Ok ==> deps_view(r->Ok_0@) == manifest_deps(self.content()),
    {
        let deps = manifest_dependencies(self.file_content.as_str());
        if deps.len() == 0 {
            Err(ParseError::NoDependencies)
        } else {
            Ok(deps)
        }
    }
}

/// The outcome of resolving one dependency: the package with its release
/// day, or the failure tagged with what was declared.
pub fn outcome_of(dep: DependencyRef, resolved: Result<Date, ErrorKind>) -> (r: Result<Package, PackageError>)
    ensures
        match resolved {
            Ok(d) => r == Ok::<Package, PackageError>(
                Package { name: dep.name, version: dep.version, release_date: d },
            ),
            Err(k) => r == Err::<Package, PackageError>(
                PackageError { name: dep.name, version: dep.version, kind: k },
            ),
        },
{
    match resolved {
        Ok(d) => Ok(Package::new(dep.name, dep.version, d)),
        Err(k) => Err(PackageError { name: dep.name, version: dep.version, kind: k }),
    }
}

/// The reader for a manifest format; every format is read as
/// `name==version` lines.
pub fn create_parser(format: Formats, file_content: &str) -> (r: Option<ParsedReqs>)
    ensures
        r is Some,
        r->Some_0.content() == file_content@,
{
    match format {
        Formats::PipFreeze => Some(ParsedReqs::new(file_content)),
        _ => Some(ParsedReqs::new(file_content)),
    }
}

} // verus!
