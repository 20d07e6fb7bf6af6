//! People of the family tree.

use vstd::prelude::*;

verus! {

/// A member of a family tree, as the tree view and its dialogs hold it.
#[derive(Clone, Debug, PartialEq)]
pub struct Person {
    pub id: String,
    pub name: String,
    pub birth_year: Option<i32>,
    pub profile_image: Option<String>,
    pub relationship: String,
}

} // verus!
