//! What contracts say of a list of records: which names it holds, whether
//! they are distinct, and where a name stands first.

use vstd::prelude::*;
use crate::error::CacheError;
use crate::item::ItemView;

verus! {

/// Some record of `items` is called `name`.
pub open spec fn contains_name(items: Seq<ItemView>, name: Seq<char>) -> bool {
    exists|i: int| 0 <= i < items.len() && #[trigger] items[i].name == name
}

/// No two records of `items` share a name.
pub open spec fn names_unique(items: Seq<ItemView>) -> bool {
    forall|i: int, j: int|
        0 <= i < items.len() && 0 <= j < items.len() && i != j
            ==> #[trigger] items[i].name != #[trigger] items[j].name
}

/// The record at `i` is called `name`, and none before it is.
pub open spec fn is_first_named(items: Seq<ItemView>, name: Seq<char>, i: int) -> bool {
    &&& 0 <= i < items.len()
    &&& items[i].name == name
    &&& forall|k: int| 0 <= k < i ==> #[trigger] items[k].name != name
}

/// Where the first record called `name` stands. Meaningful only where
/// `contains_name(items, name)`.
pub open spec fn first_named(items: Seq<ItemView>, name: Seq<char>) -> int {
    choose|i: int| is_first_named(items, name, i)
}

/// What a registry holds after reading a backing file of the bytes `content`
/// that decode to `decoded` (`None` where they do not decode): nothing where
/// the file is empty, else the decoded records, provided that their names are
/// distinct.
pub open spec fn loaded(content: Seq<u8>, decoded: Option<Seq<ItemView>>) -> Result<
    Seq<ItemView>,
    CacheError,
> {
    if content.len() == 0 {
        Ok(Seq::empty())
    } else {
        match decoded {
            Some(items) if names_unique(items) => Ok(items),
            _ => Err(CacheError::CorruptStore),
        }
    }
}

/// A name has one first place: two indices that both are it are the same.
pub proof fn lemma_first_named_is_one(items: Seq<ItemView>, name: Seq<char>, i: int, j: int)
    requires
        is_first_named(items, name, i),
        is_first_named(items, name, j),
    ensures
        i == j,
{
    if i < j {
        assert(items[i].name != name);
    } else if j < i {
        assert(items[j].name != name);
    }
}

/// A first place, once found, is the one that `first_named` speaks of.
pub proof fn lemma_first_named_at(items: Seq<ItemView>, name: Seq<char>, i: int)
    requires
        is_first_named(items, name, i),
    ensures
        first_named(items, name) == i,
        contains_name(items, name),
{
    lemma_first_named_is_one(items, name, i, first_named(items, name));
}

/// Distinct names stay distinct when a record under a new name is appended.
pub proof fn lemma_push_keeps_unique(items: Seq<ItemView>, item: ItemView)
    requires
        names_unique(items),
        !contains_name(items, item.name),
    ensures
        names_unique(items.push(item)),
{
    let longer = items.push(item);
    assert forall|i: int, j: int|
        0 <= i < longer.len() && 0 <= j < longer.len() && i != j implies #[trigger] longer[i].name
        != #[trigger] longer[j].name by {
        if i < items.len() && j < items.len() {
            assert(items[i].name != items[j].name);
        } else if i < items.len() {
            assert(items[i].name != item.name);
        } else {
            assert(items[j].name != item.name);
        }
    }
}

/// Distinct names stay distinct when a record is taken out.
pub proof fn lemma_remove_keeps_unique(items: Seq<ItemView>, at: int)
    requires
        names_unique(items),
        0 <= at < items.len(),
    ensures
        names_unique(items.remove(at)),
{
    let shorter = items.remove(at);
    assert forall|i: int, j: int|
        0 <= i < shorter.len() && 0 <= j < shorter.len() && i != j implies #[trigger] shorter[i].name
        != #[trigger] shorter[j].name by {
        let a = if i < at { i } else { i + 1 };
        let b = if j < at { j } else { j + 1 };
        assert(shorter[i] == items[a]);
        assert(shorter[j] == items[b]);
        assert(items[a].name != items[b].name);
    }
}

/// Appending a record under a name that was free, and then taking out the
/// record of that name, gives back the appended origin and the list as it
/// was before.
pub proof fn lemma_add_then_remove_restores(items: Seq<ItemView>, item: ItemView)
    requires
        !contains_name(items, item.name),
    ensures
        contains_name(items.push(item), item.name),
        first_named(items.push(item), item.name) == items.len(),
        items.push(item)[first_named(items.push(item), item.name)].origin == item.origin,
        items.push(item).remove(first_named(items.push(item), item.name)) == items,
{
    let longer = items.push(item);
    let last = items.len() as int;
    assert(longer[last].name == item.name);
    assert forall|k: int| 0 <= k < last implies #[trigger] longer[k].name != item.name by {
        assert(items[k].name != item.name);
    }
    lemma_first_named_at(longer, item.name, last);
    assert(longer.remove(last) =~= items);
}

/// Records under distinct names, read back from a file that is not empty,
/// load as the list that they are.
pub proof fn lemma_distinct_records_load(content: Seq<u8>, items: Seq<ItemView>)
    requires
        content.len() > 0,
        names_unique(items),
    ensures
        loaded(content, Some(items)) == Ok::<Seq<ItemView>, CacheError>(items),
{
}

} // verus!
