//! Tags: the labels that jobs and devices refer to by id.

use vstd::prelude::*;

verus! {

/// A tag as the server stores it.
#[derive(Debug, PartialEq, Eq)]
pub struct Tag {
    /// The id that jobs and devices use for the tag.
    pub id: u32,
    /// The tag's name.
    pub name: String,
    /// What the tag is for, if anybody said.
    pub description: Option<String>,
}

impl Clone for Tag {
    fn clone(&self) -> (copy: Self)
        ensures
            copy == *self,
    {
        let description = match &self.description {
            Some(text) => Some(text.clone()),
            None => None,
        };
        Tag { id: self.id, name: self.name.clone(), description }
    }
}

} // verus!
