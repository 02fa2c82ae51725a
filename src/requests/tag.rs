use vstd::prelude::*;

verus! {

/// A request to create a tag.
#[derive(Debug, PartialEq)]
pub struct Create {
    pub name: String,
    pub category: String,
    pub description: String,
}

/// A request to delete a tag.
#[derive(Debug, PartialEq)]
pub struct Delete {
    pub name: String,
    pub category: String,
}

/// A request for a tag, with its description.
#[derive(Debug, PartialEq)]
pub struct Post {
    pub name: String,
    pub category: String,
}

} // verus!
