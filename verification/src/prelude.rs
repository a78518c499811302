//! The steps that come before the body of a type: taking the arguments
//! apart, settling the byte order, and the constant that opens the type.

use crate::schema::{CondEndian, TypeDescriptor};
use vstd::prelude::*;

verus! {

/// One step of a prelude.
#[derive(Debug, PartialEq, Eq)]
pub enum Step<'a> {
    /// Take the arguments apart: there have to be this many.
    BindImports(usize),
    /// Settle the byte order of what follows.
    SetEndian(&'a CondEndian),
    /// Read or write this constant.
    Magic(&'a Vec<u8>),
}

/// How the arguments of a type are taken apart: as a tuple of that many
/// names, or not at all where the type imports nothing.
pub open spec fn destructured(imports: usize) -> Option<usize> {
    if imports == 0 {
        None
    } else {
        Some(imports)
    }
}

/// How the arguments of a type are taken apart.
pub fn destructure_imports(imports: usize) -> (r: Option<usize>)
    ensures
        r == destructured(imports),
{
    if imports == 0 {
        None
    } else {
        Some(imports)
    }
}

/// Builds a prelude back to front: each call puts one step before what has
/// been built so far.
pub struct PreludeGenerator<'a> {
    out: Vec<Step<'a>>,
    input: Option<&'a TypeDescriptor>,
}

impl<'a> PreludeGenerator<'a> {
    /// The steps built so far, first to last.
    pub closed spec fn steps(self) -> Seq<Step<'a>> {
        self.out@
    }

    /// The type that the prelude is built for, where there is one.
    pub closed spec fn target(self) -> Option<&'a TypeDescriptor> {
        self.input
    }

    /// A generator that starts from the steps `out`.
    pub fn new(out: Vec<Step<'a>>, input: Option<&'a TypeDescriptor>) -> (r: Self)
        ensures
            r.steps() == out@,
            r.target() == input,
    {
        Self { out, input }
    }

    /// Puts the binding of the arguments first, where the type takes any.
    pub fn prefix_imports(self) -> (r: Self)
        ensures
            r.target() == self.target(),
            r.steps() == match self.target() {
                Some(input) => match destructured(input.imports) {
                    Some(n) => seq![Step::BindImports(n)] + self.steps(),
                    None => self.steps(),
                },
                None => self.steps(),
            },
    {
        let imports = match self.input {
            Some(input) => destructure_imports(input.imports),
            None => None,
        };
        let input = self.input;
        let mut out = self.out;
        if let Some(n) = imports {
            out.insert(0, Step::BindImports(n));
        }
        Self { out, input }
    }

    /// Puts the constant first, where there is one.
    pub fn prefix_magic(self, magic: &'a Option<Vec<u8>>) -> (r: Self)
        ensures
            r.target() == self.target(),
            r.steps() == match magic {
                Some(bytes) => seq![Step::Magic(bytes)] + self.steps(),
                None => self.steps(),
            },
    {
        let input = self.input;
        let mut out = self.out;
        if let Some(bytes) = magic {
            out.insert(0, Step::Magic(bytes));
        }
        Self { out, input }
    }

    /// Puts the settling of the byte order first.
    pub fn prefix_endian(self, endian: &'a CondEndian) -> (r: Self)
        ensures
            r.target() == self.target(),
            r.steps() == seq![Step::SetEndian(endian)] + self.steps(),
    {
        let input = self.input;
        let mut out = self.out;
        out.insert(0, Step::SetEndian(endian));
        Self { out, input }
    }

    /// The steps that were built, first to last.
    pub fn finish(self) -> (r: Vec<Step<'a>>)
        ensures
            r@ == self.steps(),
    {
        self.out
    }
}

} // verus!
