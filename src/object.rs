//! Identity of one cached entity in the origin store.
use vstd::prelude::*;

verus! {

/// An object name together with the entity tag of the revision that was read.
#[derive(Clone, Debug, PartialEq, Eq, Hash)]
pub struct ObjectId {
    key: String,
    etag: String,
}

impl ObjectId {
    pub closed spec fn key_view(&self) -> Seq<char> {
        self.key@
    }

    pub closed spec fn etag_view(&self) -> Seq<char> {
        self.etag@
    }

    pub fn new(key: String, etag: String) -> (r: ObjectId)
        ensures
            r.key_view() == key@,
            r.etag_view() == etag@,
    {
        ObjectId { key, etag }
    }

    pub fn key(&self) -> (r: &str)
        ensures
            r@ == self.key_view(),
    {
        self.key.as_str()
    }

    pub fn etag(&self) -> (r: &str)
        ensures
            r@ == self.etag_view(),
    {
        self.etag.as_str()
    }
}

} // verus!
