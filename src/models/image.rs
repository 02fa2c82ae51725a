use vstd::prelude::*;

use crate::models::tag::Tag;
use crate::models::user::User;

verus! {

/// An instant in UTC: whole seconds since the Unix epoch and the nanoseconds
/// past that second.
#[derive(Debug, Clone, Copy, PartialEq, Eq, Structural)]
pub struct Timestamp {
    pub seconds: i64,
    pub nanos: u32,
}

/// An uploaded image. `hash` is the hex MD5 digest of its bytes and names its
/// file; `id` is the store's record identifier once stored; `tags` and `user`
/// are filled in from the store's relations.
#[derive(Debug, PartialEq)]
pub struct Image {
    pub id: Option<String>,
    pub hash: String,
    pub created_at: Timestamp,
    pub content_type: String,
    pub tags: Vec<Tag>,
    pub user: String,
}

/// The 32 lowercase hexadecimal digits of the MD5 digest of `data`.
pub uninterp spec fn md5_hex(data: Seq<u8>) -> Seq<char>;

/// Relies on md5::compute and the LowerHex format of its Digest, which
/// writes each of the 16 digest bytes as two lowercase hex digits.
#[verifier::external_body]
fn md5_digest_hex(data: &[u8]) -> (r: String)
    ensures
        r@ == md5_hex(data@),
        r@.len() == 32,
{
    format!("{:x}", md5::compute(data))
}

impl Image {
    /// A new, not yet stored image of the bytes `data`, uploaded at
    /// `created_at`, named by the MD5 digest of its bytes.
    pub fn new(data: &[u8], content_type: String, created_at: Timestamp) -> (r: Image)
        ensures
            r.id is None,
            r.hash@ == md5_hex(data@),
            r.hash@.len() == 32,
            r.created_at == created_at,
            r.content_type == content_type,
            r.tags@.len() == 0,
            r.user@.len() == 0,
    {
        let hash = md5_digest_hex(data);
        Image::uploaded(hash, created_at, content_type)
    }

    /// A new, not yet stored image named `hash`, uploaded at `created_at`.
    pub fn uploaded(hash: String, created_at: Timestamp, content_type: String) -> (r: Image)
        ensures
            r.id is None,
            r.hash == hash,
            r.created_at == created_at,
            r.content_type == content_type,
            r.tags@.len() == 0,
            r.user@.len() == 0,
    {
        Image { id: None, hash, created_at, content_type, tags: Vec::new(), user: String::new() }
    }

    /// The image with its tags and the name of whoever uploaded it.
    pub fn tagged(image: Image, tags: Vec<Tag>, user: User) -> (r: Image)
        ensures
            r.id == image.id,
            r.hash == image.hash,
            r.created_at == image.created_at,
            r.content_type == image.content_type,
            r.tags == tags,
            r.user == user.name,
    {
        Image { tags, user: user.name, ..image }
    }
}

} // verus!
