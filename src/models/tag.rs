use vstd::prelude::*;

verus! {

/// A tag: a name within a category. `id` is the store's record identifier,
/// present once the tag has been stored; `count` is the number of items that
/// carry the tag; `user` names whoever created it.
#[derive(Debug, PartialEq)]
pub struct Tag {
    pub id: Option<String>,
    pub name: String,
    pub category: String,
    pub description: String,
    pub count: u32,
    pub user: String,
}

impl Tag {
    /// The store identifier, as text; empty for a tag not yet stored.
    pub open spec fn key(self) -> Seq<char> {
        match self.id {
            Some(id) => id@,
            None => Seq::empty(),
        }
    }

    /// A tag that is not yet stored and that no item carries.
    pub fn new(name: String, category: String, description: String) -> (r: Tag)
        ensures
            r.id is None,
            r.name == name,
            r.category == category,
            r.description == description,
            r.count == 0,
            r.user@ == Seq::<char>::empty(),
    {
        Tag { id: None, name, category, description, count: 0, user: String::new() }
    }

    /// The store identifier of a stored tag.
    pub fn to_string(&self) -> (r: String)
        requires
            self.id is Some,
        ensures
            r@ == self.key(),
    {
        self.id.as_ref().unwrap().clone()
    }

}

/// Every tag of `ts` is stored.
pub open spec fn all_stored(ts: Seq<Tag>) -> bool {
    forall|i: int| 0 <= i < ts.len() ==> (#[trigger] ts[i]).id is Some
}

impl Clone for Tag {
    fn clone(&self) -> (r: Self)
        ensures
            r == *self,
    {
        let id = match &self.id {
            Some(s) => Some(s.clone()),
            None => None,
        };
        Tag {
            id,
            name: self.name.clone(),
            category: self.category.clone(),
            description: self.description.clone(),
            count: self.count,
            user: self.user.clone(),
        }
    }
}

} // verus!
