use vstd::prelude::*;

use crate::models::tag::Tag;

verus! {

/// What a client is shown of a tag.
#[derive(Debug, PartialEq)]
pub struct TagResponse {
    pub name: String,
    pub category: String,
    pub description: Option<String>,
    pub count: u32,
}

impl TagResponse {
    /// The tag's name, category and count, without its description.
    pub fn new(tag: Tag) -> (r: TagResponse)
        ensures
            r.name == tag.name,
            r.category == tag.category,
            r.description is None,
            r.count == tag.count,
    {
        TagResponse { name: tag.name, category: tag.category, description: None, count: tag.count }
    }

    /// The tag's name, category and count, with its description.
    pub fn with_description(tag: Tag) -> (r: TagResponse)
        ensures
            r.name == tag.name,
            r.category == tag.category,
            r.description == Some(tag.description),
            r.count == tag.count,
    {
        let description = Some(tag.description.clone());
        TagResponse { description, ..TagResponse::new(tag) }
    }
}

} // verus!
