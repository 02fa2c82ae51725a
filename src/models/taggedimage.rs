use vstd::prelude::*;

use crate::models::image::Image;
use crate::models::image::Timestamp;
use crate::models::tag::Tag;

verus! {

/// An image with its tags and uploader, as stored.
#[derive(Debug, PartialEq)]
pub struct TaggedImage {
    pub hash: String,
    pub created_at: Timestamp,
    pub tags: Vec<Tag>,
    pub user: String,
}

impl TaggedImage {
    pub fn new(image: Image, tags: Vec<Tag>, user: String) -> (r: TaggedImage)
        ensures
            r.hash == image.hash,
            r.created_at == image.created_at,
            r.tags == tags,
            r.user == user,
    {
        TaggedImage { hash: image.hash, created_at: image.created_at, tags, user }
    }
}

} // verus!
