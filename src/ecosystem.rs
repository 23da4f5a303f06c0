use vstd::prelude::*;

verus! {

/// The package registries that dependencies can come from.
#[derive(Debug, Clone, Copy, PartialEq, Eq, Structural)]
pub enum Ecosystem {
    PyPi,
    NPM,
    Hex,
    Go,
}

impl Ecosystem {
    /// The registry's display name.
    pub fn name(&self) -> (r: &'static str)
        ensures
            r@ == match *self {
                Ecosystem::PyPi => "PyPi"@,
                Ecosystem::NPM => "NPM"@,
                Ecosystem::Hex => "Hex"@,
                Ecosystem::Go => "Go"@,
            },
    {
        match self {
            Ecosystem::PyPi => "PyPi",
            Ecosystem::NPM => "NPM",
            Ecosystem::Hex => "Hex",
            Ecosystem::Go => "Go",
        }
    }
}

} // verus!
