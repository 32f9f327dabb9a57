//! Nixos and HomeManager modules named in the configuration.

use vstd::prelude::*;

verus! {

/// Configurable Nixos and HomeManager Modules.
#[derive(Clone, Debug, Default)]
pub struct Modules {
    /// Nixos Modules.
    pub nixos: Vec<String>,
    /// HomeManager Modules.
    pub home: Vec<String>,
}

/// Whether `name` is one of `names`.
pub open spec fn names_contain(names: Seq<String>, name: Seq<char>) -> bool {
    exists|i: int| 0 <= i < names.len() && #[trigger] names[i]@ == name
}

/// Whether `name` is one of `names`.
pub fn contains_name(names: &Vec<String>, name: &String) -> (r: bool)
    ensures
        r == names_contain(names@, name@),
{
    let mut i: usize = 0;
    while i < names.len()
        invariant
            i <= names@.len(),
            forall|j: int| 0 <= j < i ==> names@[j]@ != name@,
        decreases names@.len() - i,
    {
        if names[i].eq(name) {
            return true;
        }
        i = i + 1;
    }
    false
}

} // verus!
