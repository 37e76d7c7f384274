//! An insertion-ordered set of names, backed by `indexmap::IndexSet`.
//!
//! Verus does not read the code of the set. Its contents are named by
//! [`index_set_items`], and each method that the crate calls is given a
//! contract over that name, as the source of `indexmap` shows it. The component
//! registry and the route table keep their names in such a set, and what
//! stands under the names in a vector beside it.

use indexmap::IndexSet;
use vstd::prelude::*;

verus! {

#[verifier::external_type_specification]
#[verifier::external_body]
#[verifier::reject_recursive_types(T)]
#[verifier::reject_recursive_types(S)]
pub struct ExIndexSet<T, S>(IndexSet<T, S>);

/// The names held by the set, in the order in which they were inserted.
pub uninterp spec fn index_set_items(set: IndexSet<String>) -> Seq<Seq<char>>;

/// `IndexSet::new`: the new set holds nothing.
#[verifier::external_body]
pub(crate) fn set_new() -> (set: IndexSet<String>)
    ensures
        index_set_items(set) == Seq::<Seq<char>>::empty(),
{
    IndexSet::new()
}

/// `IndexSet::get_index_of`: the position of a name equal to `name`, or `None`
/// where the set holds no such name.
#[verifier::external_body]
pub(crate) fn set_index_of(set: &IndexSet<String>, name: &str) -> (r: Option<usize>)
    ensures
        match r {
            Some(i) => i < index_set_items(*set).len() && index_set_items(*set)[i as int] == name@,
            None => !index_set_items(*set).contains(name@),
        },
{
    set.get_index_of(name)
}

/// `IndexSet::insert_full`: a name that the set already holds leaves it as it
/// was, and the call returns the position of the held name and `false`; a new
/// name is placed last, and the call returns its position and `true`.
#[verifier::external_body]
pub(crate) fn set_insert_full(set: &mut IndexSet<String>, name: String) -> (r: (usize, bool))
    ensures
        index_set_items(*old(set)).contains(name@) ==> {
            &&& index_set_items(*final(set)) == index_set_items(*old(set))
            &&& !r.1
            &&& r.0 < index_set_items(*old(set)).len()
            &&& index_set_items(*old(set))[r.0 as int] == name@
        },
        !index_set_items(*old(set)).contains(name@) ==> {
            &&& index_set_items(*final(set)) == index_set_items(*old(set)).push(name@)
            &&& r.1
            &&& r.0 == index_set_items(*old(set)).len()
        },
{
    set.insert_full(name)
}

/// `IndexSet::get_index`: the name at position `i`, or `None` where `i` is not
/// a position of the set.
#[verifier::external_body]
pub(crate) fn set_get_index(set: &IndexSet<String>, i: usize) -> (r: Option<&String>)
    ensures
        match r {
            Some(name) => i < index_set_items(*set).len() && name@ == index_set_items(*set)[i as int],
            None => i >= index_set_items(*set).len(),
        },
{
    set.get_index(i)
}

} // verus!
