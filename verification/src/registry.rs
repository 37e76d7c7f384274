//! The component registry: named schemas in the order in which they were
//! first inserted, each name once.

use crate::names::{index_set_items, set_get_index, set_index_of, set_insert_full, set_new};
use crate::schema::{SchemaModel, SchemaNode};
use indexmap::IndexSet;
use vstd::prelude::*;

verus! {

/// Whether some entry of `entries` stands under `name`.
pub open spec fn has_name(entries: Seq<(Seq<char>, SchemaModel)>, name: Seq<char>) -> bool {
    exists|i: int| 0 <= i < entries.len() && (#[trigger] entries[i]).0 == name
}

/// The names of `entries`, in order.
pub open spec fn names_of(entries: Seq<(Seq<char>, SchemaModel)>) -> Seq<Seq<char>> {
    Seq::new(entries.len(), |i: int| entries[i].0)
}

/// `entries` after the insertion of `node` under `name`: a name that is
/// already there keeps the node it has, a new name goes last.
pub open spec fn with_entry(
    entries: Seq<(Seq<char>, SchemaModel)>,
    name: Seq<char>,
    node: SchemaModel,
) -> Seq<(Seq<char>, SchemaModel)> {
    if has_name(entries, name) {
        entries
    } else {
        entries.push((name, node))
    }
}

/// `entries` after the insertion of each entry of `more`, in order.
pub open spec fn with_entries(
    entries: Seq<(Seq<char>, SchemaModel)>,
    more: Seq<(Seq<char>, SchemaModel)>,
) -> Seq<(Seq<char>, SchemaModel)>
    decreases more.len(),
{
    if more.len() == 0 {
        entries
    } else {
        with_entry(with_entries(entries, more.drop_last()), more.last().0, more.last().1)
    }
}

/// Insertion keeps the names of the entries distinct.
pub proof fn lemma_with_entry_distinct(
    entries: Seq<(Seq<char>, SchemaModel)>,
    name: Seq<char>,
    node: SchemaModel,
)
    requires
        names_of(entries).no_duplicates(),
    ensures
        names_of(with_entry(entries, name, node)).no_duplicates(),
{
    let after = with_entry(entries, name, node);
    if !has_name(entries, name) {
        assert forall|i: int, j: int|
            0 <= i < after.len() && 0 <= j < after.len() && i != j implies names_of(after)[i]
            != names_of(after)[j] by {
            if i < entries.len() && j < entries.len() {
                assert(names_of(entries)[i] != names_of(entries)[j]);
            } else if i < entries.len() {
                assert(entries[i].0 != name);
            } else {
                assert(entries[j].0 != name);
            }
        }
    }
}

/// Entries with distinct names, inserted one by one into an empty registry,
/// give the same entries again.
pub proof fn lemma_with_entries_from_empty(entries: Seq<(Seq<char>, SchemaModel)>)
    requires
        names_of(entries).no_duplicates(),
    ensures
        with_entries(Seq::empty(), entries) == entries,
    decreases entries.len(),
{
    if entries.len() > 0 {
        let front = entries.drop_last();
        assert forall|i: int, j: int|
            0 <= i < front.len() && 0 <= j < front.len() && i != j implies names_of(front)[i]
            != names_of(front)[j] by {
            assert(names_of(entries)[i] != names_of(entries)[j]);
        }
        lemma_with_entries_from_empty(front);
        assert(!has_name(front, entries.last().0)) by {
            if has_name(front, entries.last().0) {
                let i = choose|i: int|
                    0 <= i < front.len() && (#[trigger] front[i]).0 == entries.last().0;
                assert(names_of(entries)[i] == names_of(entries)[entries.len() - 1]);
            }
        }
        assert(front.push(entries.last()) =~= entries);
    } else {
        assert(entries =~= Seq::empty());
    }
}

/// An insertion-ordered mapping from names to schema nodes.
pub struct ReferenceRegistry {
    names: IndexSet<String>,
    nodes: Vec<SchemaNode>,
}

impl View for ReferenceRegistry {
    type V = Seq<(Seq<char>, SchemaModel)>;

    closed spec fn view(&self) -> Seq<(Seq<char>, SchemaModel)> {
        Seq::new(self.nodes@.len(), |i: int| (index_set_items(self.names)[i], self.nodes@[i]@))
    }
}

impl ReferenceRegistry {
    #[verifier::type_invariant]
    spec fn well_formed(&self) -> bool {
        &&& index_set_items(self.names).len() == self.nodes@.len()
        &&& index_set_items(self.names).no_duplicates()
    }

    /// A registry without entries.
    pub fn new() -> (registry: ReferenceRegistry)
        ensures
            registry@ == Seq::<(Seq<char>, SchemaModel)>::empty(),
    {
        let registry = ReferenceRegistry { names: set_new(), nodes: Vec::new() };
        assert(registry@ =~= Seq::empty());
        registry
    }

    /// The number of entries. No two of them stand under the same name.
    pub fn len(&self) -> (n: usize)
        ensures
            n == self@.len(),
            names_of(self@).no_duplicates(),
    {
        proof {
            use_type_invariant(self);
            assert(names_of(self@) =~= index_set_items(self.names));
        }
        self.nodes.len()
    }

    /// The name of the entry at position `i`.
    pub fn name_at(&self, i: usize) -> (name: &String)
        requires
            i < self@.len(),
        ensures
            name@ == self@[i as int].0,
    {
        proof {
            use_type_invariant(self);
        }
        match set_get_index(&self.names, i) {
            Some(name) => name,
            None => vstd::pervasive::unreached(),
        }
    }

    /// The node of the entry at position `i`.
    pub fn node_at(&self, i: usize) -> (node: &SchemaNode)
        requires
            i < self@.len(),
        ensures
            node@ == self@[i as int].1,
    {
        &self.nodes[i]
    }

    /// The node that stands under `name`, if any.
    pub fn get(&self, name: &str) -> (node: Option<&SchemaNode>)
        ensures
            match node {
                Some(found) => exists|i: int|
                    0 <= i < self@.len() && #[trigger] self@[i] == (name@, found@),
                None => !has_name(self@, name@),
            },
    {
        proof {
            use_type_invariant(self);
        }
        match set_index_of(&self.names, name) {
            Some(i) => {
                assert(self@[i as int] == (name@, self.nodes@[i as int]@));
                Some(&self.nodes[i])
            },
            None => {
                assert forall|i: int| 0 <= i < self@.len() implies (#[trigger] self@[i]).0
                    != name@ by {
                    assert(index_set_items(self.names)[i] != name@);
                }
                None
            },
        }
    }

    /// Whether an entry stands under `name`.
    pub fn contains(&self, name: &str) -> (found: bool)
        ensures
            found == has_name(self@, name@),
    {
        proof {
            use_type_invariant(self);
        }
        match set_index_of(&self.names, name) {
            Some(i) => {
                assert(self@[i as int].0 == name@);
                true
            },
            None => {
                assert forall|i: int| 0 <= i < self@.len() implies (#[trigger] self@[i]).0
                    != name@ by {
                    assert(index_set_items(self.names)[i] != name@);
                }
                false
            },
        }
    }

    /// Inserts a copy of each entry of `other` whose name is not yet there, in
    /// the order of `other`.
    pub fn merge(&mut self, other: &ReferenceRegistry)
        ensures
            final(self)@ == with_entries(old(self)@, other@),
    {
        let count = other.len();
        let mut i: usize = 0;
        while i < count
            invariant
                i <= count,
                count == other@.len(),
                self@ == with_entries(old(self)@, other@.take(i as int)),
            decreases count - i,
        {
            assert(other@.take(i + 1).drop_last() =~= other@.take(i as int));
            assert(other@.take(i + 1).last() == other@[i as int]);
            self.insert(other.name_at(i).clone(), other.node_at(i).clone());
            i += 1;
        }
        assert(other@.take(count as int) =~= other@);
    }

    /// Inserts `node` under `name` unless the name is already there, and says
    /// whether it did.
    pub fn insert(&mut self, name: String, node: SchemaNode) -> (inserted: bool)
        ensures
            final(self)@ == with_entry(old(self)@, name@, node@),
            inserted == !has_name(old(self)@, name@),
    {
        proof {
            use_type_invariant(&*self);
        }
        let ghost before = self@;
        let ghost items = index_set_items(self.names);
        assert(has_name(before, name@) == items.contains(name@)) by {
            if has_name(before, name@) {
                let i = choose|i: int| 0 <= i < before.len() && (#[trigger] before[i]).0 == name@;
                assert(items[i] == name@);
            }
            if items.contains(name@) {
                let i = choose|i: int| 0 <= i < items.len() && items[i] == name@;
                assert(before[i].0 == name@);
            }
        }
        let mut taken = ReferenceRegistry::new();
        core::mem::swap(self, &mut taken);
        let ReferenceRegistry { mut names, mut nodes } = taken;
        let (_, inserted) = set_insert_full(&mut names, name);
        if inserted {
            nodes.push(node);
        }
        *self = ReferenceRegistry { names, nodes };
        assert(self@ =~= with_entry(before, name@, node@));
        inserted
    }
}

impl Clone for ReferenceRegistry {
    fn clone(&self) -> (copy: Self)
        ensures
            copy@ == self@,
    {
        let mut copy = ReferenceRegistry::new();
        let _ = self.len();
        copy.merge(self);
        proof {
            lemma_with_entries_from_empty(self@);
        }
        copy
    }
}

} // verus!
