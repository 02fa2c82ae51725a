use vstd::prelude::*;
use vstd::string::StringExecFns;

use crate::models::image::Image;
use crate::models::image::Timestamp;
use crate::models::tagresponse::TagResponse;

verus! {

/// What a client is shown of an image: where to fetch it and its tags,
/// without their descriptions.
#[derive(Debug, PartialEq)]
pub struct ImageResponse {
    pub hash: String,
    pub url: String,
    pub created_at: Timestamp,
    pub tags: Vec<TagResponse>,
    pub user: String,
}

/// The address at which the file store serves the image named `hash`.
pub open spec fn image_url(hash: Seq<char>) -> Seq<char> {
    "http://localhost:4000/"@ + hash
}

impl ImageResponse {
    pub fn new(image: Image) -> (r: ImageResponse)
        ensures
            r.hash == image.hash,
            r.url@ == image_url(image.hash@),
            r.created_at == image.created_at,
            r.user == image.user,
            r.tags.len() == image.tags.len(),
            forall|i: int|
                0 <= i < image.tags.len() ==> {
                    let t = #[trigger] image.tags@[i];
                    &&& r.tags@[i].name == t.name
                    &&& r.tags@[i].category == t.category
                    &&& r.tags@[i].description is None
                    &&& r.tags@[i].count == t.count
                },
    {
        let mut url = String::new();
        url.append("http://localhost:4000/");
        url.append(image.hash.as_str());
        let ghost all = image.tags@;
        let mut rest = image.tags;
        let mut tags: Vec<TagResponse> = Vec::new();
        let ghost mut i: int = 0;
        while rest.len() > 0
            invariant
                0 <= i <= all.len(),
                rest@ == all.skip(i),
                tags.len() == i,
                forall|j: int|
                    0 <= j < i ==> {
                        let t = #[trigger] all[j];
                        &&& tags@[j].name == t.name
                        &&& tags@[j].category == t.category
                        &&& tags@[j].description is None
                        &&& tags@[j].count == t.count
                    },
            decreases rest.len(),
        {
            let t = rest.remove(0);
            assert(t == all[i]);
            assert(rest@ =~= all.skip(i + 1));
            tags.push(TagResponse::new(t));
            proof {
                i = i + 1;
            }
        }
        ImageResponse { hash: image.hash, url, created_at: image.created_at, tags, user: image.user }
    }
}

} // verus!
