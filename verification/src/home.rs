//! The items of the home page's lists.
use vstd::prelude::*;

use crate::model::ViewString;

verus! {

/// An item of a home list: a key and the string shown for it.
#[derive(Clone, PartialEq, Eq)]
pub enum Item {
    KeyString(String, ViewString),
}

impl Item {
    /// The item's key.
    pub fn key(&self) -> (k: &String)
        ensures
            match self {
                Item::KeyString(key, _) => k == key,
            },
    {
        match self {
            Item::KeyString(key, _) => key,
        }
    }
}

} // verus!
