//! Project kinds and templates of the data store.
use vstd::prelude::*;

use crate::detect::{contains_name, names_of};

verus! {

/// Kinds of project recognised by their build file.
#[derive(Debug, Clone, Copy, PartialEq, Eq, Structural)]
pub enum ProjectType {
    Cargo,
    CMake,
    Makefile,
}

/// A named project template.
#[derive(Debug)]
pub struct Template {
    pub name: String,
}

/// The kinds whose build file is among `present`, in the order Cargo,
/// CMake, Makefile.
pub open spec fn kinds_present(present: Seq<Seq<char>>) -> Seq<ProjectType> {
    let a: Seq<ProjectType> = if present.contains("Cargo.toml"@) {
        seq![ProjectType::Cargo]
    } else {
        seq![]
    };
    let b: Seq<ProjectType> = if present.contains("CMakeLists.txt"@) {
        seq![ProjectType::CMake]
    } else {
        seq![]
    };
    let c: Seq<ProjectType> = if present.contains("Makefile"@) {
        seq![ProjectType::Makefile]
    } else {
        seq![]
    };
    a + b + c
}

impl ProjectType {
    /// The kinds of a directory, from the names of the entries present in it.
    pub fn autodetect(present: &Vec<String>) -> (r: Vec<ProjectType>)
        ensures
            r@ == kinds_present(names_of(present@)),
    {
        let mut types: Vec<ProjectType> = Vec::new();
        let ghost p = names_of(present@);
        if contains_name(present, "Cargo.toml") {
            types.push(ProjectType::Cargo);
        }
        if contains_name(present, "CMakeLists.txt") {
            types.push(ProjectType::CMake);
        }
        if contains_name(present, "Makefile") {
            types.push(ProjectType::Makefile);
        }
        assert(types@ =~= kinds_present(p));
        types
    }
}

} // verus!
