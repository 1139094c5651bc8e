//! A record of the registry, and what a list of records looks like to a
//! contract.

use vstd::prelude::*;

verus! {

/// One record: `name` is its key within a registry, `origin` says where the
/// named thing came from.
#[derive(Clone, Debug, PartialEq, Eq)]
pub struct Item {
    pub name: String,
    pub origin: String,
}

/// A record as contracts see it: both strings as sequences of characters.
pub struct ItemView {
    pub name: Seq<char>,
    pub origin: Seq<char>,
}

impl View for Item {
    type V = ItemView;

    open spec fn view(&self) -> ItemView {
        ItemView { name: self.name@, origin: self.origin@ }
    }
}

impl DeepView for Item {
    type V = ItemView;

    open spec fn deep_view(&self) -> ItemView {
        self@
    }
}

impl Item {
    /// A record with the given name and origin.
    pub fn new(name: String, origin: String) -> (item: Item)
        ensures
            item@ == (ItemView { name: name@, origin: origin@ }),
    {
        Item { name: name, origin: origin }
    }
}

} // verus!
