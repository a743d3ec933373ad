//! Domain model: genre / tag.

use vstd::prelude::*;

verus! {

/// A genre or tag attached to a track.
#[derive(Debug, PartialEq, Eq, Hash)]
pub struct Genre {
    pub id: i64,
    pub name: String,
}

impl DeepView for Genre {
    type V = (i64, Seq<char>);

    open spec fn deep_view(&self) -> (i64, Seq<char>) {
        (self.id, self.name@)
    }
}

impl Clone for Genre {
    fn clone(&self) -> (r: Self)
        ensures
            r.deep_view() == self.deep_view(),
    {
        Genre { id: self.id, name: self.name.clone() }
    }
}

impl Genre {
    /// Genre without a database id.
    pub fn new(name: String) -> (g: Self)
        ensures
            g.id == 0,
            g.name == name,
    {
        Genre { id: 0, name }
    }
}

} // verus!
