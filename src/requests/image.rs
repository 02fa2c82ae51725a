use vstd::prelude::*;

use crate::models::tagresponse::TagResponse;

verus! {

/// A request to delete the image with this hash.
#[derive(Debug, PartialEq)]
pub struct Delete {
    pub hash: String,
}

/// A request for the image with this hash, with its tags.
#[derive(Debug, PartialEq)]
pub struct Post {
    pub hash: String,
}

/// A request to give the image with this hash exactly these tags.
#[derive(Debug, PartialEq)]
pub struct Update {
    pub hash: String,
    pub tags: Vec<TagResponse>,
}

} // verus!
