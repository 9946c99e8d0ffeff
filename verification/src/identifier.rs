//! Names of variables.

use vstd::prelude::*;

verus! {

/// A named reference to a variable. Two identifiers are the same if they
/// spell the same name.
#[derive(Debug, Eq, Hash, PartialEq, Clone)]
pub struct Identifier(pub String);

impl View for Identifier {
    type V = Seq<char>;

    open spec fn view(&self) -> Seq<char> {
        self.0@
    }
}

} // verus!
