//! The registry: records in insertion order, no two under one name, and the
//! path of the file that backs them.

use std::path::PathBuf;
use vstd::prelude::*;
use crate::error::CacheError;
use crate::item::{Item, ItemView};
use crate::records::{
    contains_name, first_named, is_first_named, lemma_first_named_at, lemma_push_keeps_unique,
    lemma_remove_keeps_unique, loaded, names_unique,
};

verus! {

/// `std::path::PathBuf`, carried through as an opaque value.
#[verifier::external_type_specification]
#[verifier::external_body]
pub struct ExPathBuf(PathBuf);

/// The registry. It is changed in memory only; the backing file changes when
/// the records that `commit` hands out are written to it.
pub struct Cache {
    items: Vec<Item>,
    cache_file: PathBuf,
}

/// A registry as contracts see it.
pub struct CacheView {
    /// The records, oldest first.
    pub items: Seq<ItemView>,
    /// The file that backs the registry.
    pub cache_file: PathBuf,
}

impl View for Cache {
    type V = CacheView;

    closed spec fn view(&self) -> CacheView {
        CacheView { items: self.items.deep_view(), cache_file: self.cache_file }
    }
}

/// Where the first record called `name` stands among `items`, if there is one.
fn find_first(items: &Vec<Item>, name: &String) -> (found: Option<usize>)
    ensures
        match found {
            Some(i) => is_first_named(items.deep_view(), name@, i as int),
            None => !contains_name(items.deep_view(), name@),
        },
{
    let mut i: usize = 0;
    while i < items.len()
        invariant
            i <= items.len(),
            forall|k: int| 0 <= k < i ==> (#[trigger] items.deep_view()[k]).name != name@,
        decreases items.len() - i,
    {
        if items[i].name == *name {
            assert(items.deep_view()[i as int].name == name@);
            return Some(i);
        }
        i = i + 1;
    }
    None
}

impl Cache {
    #[verifier::type_invariant]
    spec fn distinct(&self) -> bool {
        names_unique(self.items.deep_view())
    }

    /// Builds the registry from what was read at `cache_file`: `content` is
    /// what the file held, `decoded` the records that these bytes stand for,
    /// or `None` where they stand for no list of records.
    ///
    /// A file without content gives a registry without records, whatever
    /// `decoded` is. Otherwise the registry holds the decoded records in
    /// their order, and the store counts as corrupt where the bytes did not
    /// decode or two records share a name.
    pub fn new(cache_file: PathBuf, content: &[u8], decoded: Option<Vec<Item>>) -> (res: Result<
        Cache,
        CacheError,
    >)
        ensures
            match loaded(content@, decoded_view(decoded)) {
                Ok(items) => res matches Ok(cache) && cache@ == (CacheView { items, cache_file }),
                Err(error) => res matches Err(e) && e == error,
            },
    {
        let mut cache = Cache { items: Vec::new(), cache_file };
        assert(cache.items.deep_view() =~= Seq::<ItemView>::empty());
        if content.len() == 0 {
            return Ok(cache);
        }
        let records = match decoded {
            Some(records) => records,
            None => {
                return Err(CacheError::CorruptStore);
            },
        };
        let mut i: usize = 0;
        while i < records.len()
            invariant
                i <= records.len(),
                content@.len() != 0,
                decoded == Some(records),
                cache@.items == records.deep_view().take(i as int),
                cache@.cache_file == cache_file,
                names_unique(cache@.items),
            decreases records.len() - i,
        {
            let name = records[i].name.clone();
            let origin = records[i].origin.clone();
            let ghost all = records.deep_view();
            let ghost before = cache@.items;
            assert(all[i as int] == (ItemView { name: name@, origin: origin@ }));
            if cache.add_item(name, origin).is_err() {
                proof {
                    let k = choose|k: int| 0 <= k < before.len() && #[trigger] before[k].name == name@;
                    assert(all[k].name == all[i as int].name);
                }
                return Err(CacheError::CorruptStore);
            }
            assert(cache@.items =~= all.take(i + 1));
            i = i + 1;
        }
        assert(records.deep_view().take(i as int) =~= records.deep_view());
        Ok(cache)
    }

    /// The records that the backing file is to hold from now on, in their
    /// order: whoever writes them replaces all that the file held.
    pub fn commit(&self) -> (records: Vec<Item>)
        ensures
            records.deep_view() == self@.items,
            names_unique(records.deep_view()),
    {
        proof {
            use_type_invariant(self);
        }
        let mut records: Vec<Item> = Vec::new();
        let mut i: usize = 0;
        while i < self.items.len()
            invariant
                i <= self.items.len(),
                records.deep_view() =~= self.items.deep_view().take(i as int),
            decreases self.items.len() - i,
        {
            let name = self.items[i].name.clone();
            let origin = self.items[i].origin.clone();
            let ghost copied = records.deep_view();
            records.push(Item::new(name, origin));
            assert(records.deep_view() =~= copied.push(self.items.deep_view()[i as int]));
            i = i + 1;
        }
        assert(self.items.deep_view().take(i as int) =~= self.items.deep_view());
        records
    }

    /// The records, oldest first. No two of them share a name.
    pub fn items(&self) -> (items: &Vec<Item>)
        ensures
            items.deep_view() == self@.items,
            names_unique(self@.items),
    {
        proof {
            use_type_invariant(self);
        }
        &self.items
    }

    /// The file that backs the registry.
    pub fn cache_file(&self) -> (path: &PathBuf)
        ensures
            *path == self@.cache_file,
    {
        &self.cache_file
    }

    /// Tests whether `name` is taken: succeeds where that is as `expect`
    /// says, and reports a conflict where it is not.
    pub fn conflicts(&self, expect: bool, name: String) -> (res: Result<(), CacheError>)
        ensures
            contains_name(self@.items, name@) == expect ==> res == Ok::<(), CacheError>(()),
            contains_name(self@.items, name@) != expect ==> res == Err::<(), CacheError>(
                CacheError::Conflict,
            ),
    {
        if find_first(&self.items, &name).is_some() == expect {
            Ok(())
        } else {
            Err(CacheError::Conflict)
        }
    }

    /// Appends the record `{name, origin}`, unless `name` is taken: then
    /// nothing changes and a conflict is reported.
    pub fn add_item(&mut self, name: String, origin: String) -> (res: Result<(), CacheError>)
        ensures
            final(self)@.cache_file == old(self)@.cache_file,
            names_unique(final(self)@.items),
            contains_name(old(self)@.items, name@) ==> {
                &&& res == Err::<(), CacheError>(CacheError::Conflict)
                &&& final(self)@.items == old(self)@.items
            },
            !contains_name(old(self)@.items, name@) ==> {
                &&& res == Ok::<(), CacheError>(())
                &&& final(self)@.items == old(self)@.items.push(
                    ItemView { name: name@, origin: origin@ },
                )
            },
    {
        proof {
            use_type_invariant(&*self);
        }
        self.conflicts(false, name.clone())?;
        proof {
            lemma_push_keeps_unique(self@.items, ItemView { name: name@, origin: origin@ });
        }
        let ghost before = self.items.deep_view();
        // The list changes outside the registry, which holds distinct names
        // at every point where a call could unwind.
        let mut items: Vec<Item> = Vec::new();
        core::mem::swap(&mut self.items, &mut items);
        items.push(Item::new(name, origin));
        assert(items.deep_view() =~= before.push(ItemView { name: name@, origin: origin@ }));
        self.items = items;
        Ok(())
    }

    /// Takes out the record called `name` and returns its origin; the others
    /// keep their order. Where no record is called `name`, nothing changes and
    /// a conflict is reported.
    pub fn remove_item(&mut self, name: String) -> (res: Result<String, CacheError>)
        ensures
            final(self)@.cache_file == old(self)@.cache_file,
            names_unique(final(self)@.items),
            !contains_name(old(self)@.items, name@) ==> {
                &&& res matches Err(e) && e == CacheError::Conflict
                &&& final(self)@.items == old(self)@.items
            },
            contains_name(old(self)@.items, name@) ==> {
                let at = first_named(old(self)@.items, name@);
                &&& is_first_named(old(self)@.items, name@, at)
                &&& res matches Ok(origin) && origin@ == old(self)@.items[at].origin
                &&& final(self)@.items == old(self)@.items.remove(at)
            },
    {
        proof {
            use_type_invariant(&*self);
        }
        self.conflicts(true, name.clone())?;
        match find_first(&self.items, &name) {
            Some(index) => {
                let ghost before = self.items.deep_view();
                proof {
                    lemma_first_named_at(before, name@, index as int);
                    lemma_remove_keeps_unique(before, index as int);
                }
                let mut items: Vec<Item> = Vec::new();
                core::mem::swap(&mut self.items, &mut items);
                let item = items.remove(index);
                assert(items.deep_view() =~= before.remove(index as int));
                self.items = items;
                Ok(item.origin)
            },
            None => Err(CacheError::Conflict),
        }
    }
}

/// The records that a decoder handed over, as contracts see them.
pub open spec fn decoded_view(decoded: Option<Vec<Item>>) -> Option<Seq<ItemView>> {
    match decoded {
        Some(records) => Some(records.deep_view()),
        None => None,
    }
}

} // verus!
