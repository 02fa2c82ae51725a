use vstd::prelude::*;
use vstd::string::StringExecFns;

use crate::pattern::Pattern;

verus! {

/// A client's reference to a tag, not yet resolved against the store.
#[derive(Debug, PartialEq)]
pub struct PatternTag {
    pub name: String,
    pub category: String,
}

/// A search for images whose tags satisfy `pattern` (all images without
/// one), continuing after the image whose hash is `previous`.
#[derive(Debug, PartialEq)]
pub struct SearchImage {
    pub pattern: Option<Pattern<PatternTag>>,
    pub previous: Option<String>,
}

/// A search for tags whose category and name start with the given text.
#[derive(Debug, PartialEq)]
pub struct SearchTag {
    pub name: String,
    pub category: String,
}

/// The query over all images, each with the ids of its tags as `tag`.
pub open spec fn all_images_query() -> Seq<char> {
    "select * from (select *, ->tagged->tag.*.id as tag from image)"@
}

/// The query for the images that satisfy `predicate`, or for all images.
pub open spec fn image_query(predicate: Option<Seq<char>>) -> Seq<char> {
    match predicate {
        Some(p) => all_images_query() + " where "@ + p,
        None => all_images_query(),
    }
}

/// The query for the images that satisfy a compiled pattern, or for all
/// images; the predicate is to be compiled over the tag set named `tag`.
pub fn image_search_query(predicate: Option<String>) -> (r: String)
    ensures
        r@ == image_query(
            match predicate {
                Some(p) => Some(p@),
                None => None,
            },
        ),
{
    let mut q = String::new();
    q.append("select * from (select *, ->tagged->tag.*.id as tag from image)");
    match predicate {
        Some(p) => {
            q.append(" where ");
            q.append(p.as_str());
        },
        None => {},
    }
    q
}

/// The query for the tags whose category and name begin with the given text.
pub fn tag_search_query(category: &str, name: &str) -> (r: String)
    ensures
        r@ == "select * from tag where category = /^"@ + category@ + "/ and name = /^"@ + name@ + "/;"@,
{
    let mut q = String::new();
    q.append("select * from tag where category = /^");
    q.append(category);
    q.append("/ and name = /^");
    q.append(name);
    q.append("/;");
    q
}

} // verus!
