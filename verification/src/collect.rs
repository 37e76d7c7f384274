//! The reference collector: from root types to the registry of every named
//! type that they reach.
//!
//! The collector works through a queue. It starts with the named types that
//! the roots refer to, in the order of the roots. It takes the first pending
//! reference; where its name is not yet registered, it registers the type and
//! appends the named types that the type's fields refer to, in declared order.
//! A name is expanded at most once, so the walk ends on every catalog, also
//! where types refer to themselves or to each other.

use crate::registry::{has_name, names_of, ReferenceRegistry};
use crate::schema::SchemaModel;
use crate::types::{
    lemma_named_type, named_schema, resolve, schema_name_of, schema_of, Field, NamedRef, NamedType,
    TypeCatalog, TypeDesc,
};
use vstd::prelude::*;

verus! {

/// The named types that `ty` refers to where it stands as a root or as the
/// type of a field: `ty` itself where it stands for a named type, else what
/// its inner type refers to. Parameter-carrying wrappers refer to none.
pub open spec fn referenced(types: Seq<NamedType>, ty: TypeDesc) -> Seq<NamedRef>
    decreases ty,
{
    match resolve(types, ty) {
        Some(r) => seq![r],
        None => match ty {
            TypeDesc::Array(inner) => referenced(types, *inner),
            TypeDesc::Dictionary(inner) => referenced(types, *inner),
            TypeDesc::Optional(inner) => referenced(types, *inner),
            TypeDesc::Fallible(inner) => referenced(types, *inner),
            TypeDesc::Body(inner) => referenced(types, *inner),
            _ => Seq::empty(),
        },
    }
}

/// The named types that `roots` refer to, in the order of `roots`.
pub open spec fn referenced_by_all(types: Seq<NamedType>, roots: Seq<TypeDesc>) -> Seq<NamedRef>
    decreases roots.len(),
{
    if roots.len() == 0 {
        Seq::empty()
    } else {
        referenced_by_all(types, roots.drop_last()) + referenced(types, roots.last())
    }
}

/// The types of `fields`, in declared order.
pub open spec fn field_types(fields: Seq<Field>) -> Seq<TypeDesc> {
    Seq::new(fields.len(), |i: int| fields[i].ty)
}

/// The named types that the fields of the type at `index` refer to.
pub open spec fn children(types: Seq<NamedType>, index: int) -> Seq<NamedRef> {
    referenced_by_all(types, field_types(types[index].fields@))
}

/// Whether one of `done` stands under `name`.
pub open spec fn registered(types: Seq<NamedType>, done: Seq<NamedRef>, name: Seq<char>) -> bool {
    exists|j: int| 0 <= j < done.len() && types[(#[trigger] done[j]).index as int].name@ == name
}

/// How many of the first `n` types of the catalog have a name that none of
/// `done` stands under.
pub open spec fn unregistered(types: Seq<NamedType>, done: Seq<NamedRef>, n: nat) -> nat
    decreases n,
{
    if n == 0 {
        0
    } else if registered(types, done, types[n - 1].name@) {
        unregistered(types, done, (n - 1) as nat)
    } else {
        unregistered(types, done, (n - 1) as nat) + 1
    }
}

/// Registering one more reference leaves no more names unregistered than
/// before, and one fewer where its own name was not yet registered.
pub proof fn lemma_unregistered_shrinks(
    types: Seq<NamedType>,
    done: Seq<NamedRef>,
    r: NamedRef,
    n: nat,
)
    requires
        n <= types.len(),
    ensures
        unregistered(types, done.push(r), n) <= unregistered(types, done, n),
        r.index < n && !registered(types, done, types[r.index as int].name@) ==> unregistered(
            types,
            done.push(r),
            n,
        ) < unregistered(types, done, n),
    decreases n,
{
    if n > 0 {
        lemma_unregistered_shrinks(types, done, r, (n - 1) as nat);
        let name = types[n - 1].name@;
        if registered(types, done, name) {
            let j = choose|j: int|
                0 <= j < done.len() && types[(#[trigger] done[j]).index as int].name@ == name;
            assert(done.push(r)[j] == done[j]);
        }
        if r.index == n - 1 {
            assert(done.push(r)[done.len() as int] == r);
        }
    }
}

/// The references registered once the queue `pending` is worked off, starting
/// from the registered references `done`.
pub open spec fn collect_from(
    types: Seq<NamedType>,
    done: Seq<NamedRef>,
    pending: Seq<NamedRef>,
) -> Seq<NamedRef>
    decreases unregistered(types, done, types.len()), pending.len(),
{
    if pending.len() == 0 {
        done
    } else {
        let r = pending.first();
        if r.index >= types.len() || registered(types, done, types[r.index as int].name@) {
            collect_from(types, done, pending.drop_first())
        } else {
            proof {
                lemma_unregistered_shrinks(types, done, r, types.len());
            }
            collect_from(types, done.push(r), pending.drop_first() + children(types, r.index as int))
        }
    }
}

/// The references that the collector registers for `roots`, in order.
pub open spec fn collect_order(types: Seq<NamedType>, roots: Seq<TypeDesc>) -> Seq<NamedRef> {
    collect_from(types, Seq::empty(), referenced_by_all(types, roots))
}

/// The registry entries that stand for the registered references `done`.
pub open spec fn entries_of(types: Seq<NamedType>, done: Seq<NamedRef>) -> Seq<
    (Seq<char>, SchemaModel),
> {
    Seq::new(
        done.len(),
        |j: int| (types[done[j].index as int].name@, named_schema(types, done[j])),
    )
}

/// The registry that the collector builds for `roots`.
pub open spec fn collected(types: Seq<NamedType>, roots: Seq<TypeDesc>) -> Seq<
    (Seq<char>, SchemaModel),
> {
    entries_of(types, collect_order(types, roots))
}

/// Whether no two of `done` stand under the same name.
pub open spec fn names_once(types: Seq<NamedType>, done: Seq<NamedRef>) -> bool {
    forall|i: int, j: int|
        0 <= i < done.len() && 0 <= j < done.len() && i != j ==> types[(
        #[trigger] done[i]).index as int].name@ != types[(#[trigger] done[j]).index as int].name@
}

/// Working off the queue never touches what is registered already: the result
/// starts with `done`.
pub proof fn lemma_collect_keeps_done(
    types: Seq<NamedType>,
    done: Seq<NamedRef>,
    pending: Seq<NamedRef>,
)
    ensures
        done.is_prefix_of(collect_from(types, done, pending)),
    decreases unregistered(types, done, types.len()), pending.len(),
{
    if pending.len() > 0 {
        let r = pending.first();
        if r.index >= types.len() || registered(types, done, types[r.index as int].name@) {
            lemma_collect_keeps_done(types, done, pending.drop_first());
        } else {
            lemma_unregistered_shrinks(types, done, r, types.len());
            let next = pending.drop_first() + children(types, r.index as int);
            lemma_collect_keeps_done(types, done.push(r), next);
            let result = collect_from(types, done.push(r), next);
            assert(done =~= done.push(r).subrange(0, done.len() as int));
            assert(done =~= result.subrange(0, done.len() as int));
        }
    }
}

/// Working off the queue registers no name twice.
pub proof fn lemma_collect_names_once(
    types: Seq<NamedType>,
    done: Seq<NamedRef>,
    pending: Seq<NamedRef>,
)
    requires
        names_once(types, done),
    ensures
        names_once(types, collect_from(types, done, pending)),
    decreases unregistered(types, done, types.len()), pending.len(),
{
    if pending.len() > 0 {
        let r = pending.first();
        if r.index >= types.len() || registered(types, done, types[r.index as int].name@) {
            lemma_collect_names_once(types, done, pending.drop_first());
        } else {
            lemma_unregistered_shrinks(types, done, r, types.len());
            let more = done.push(r);
            assert forall|i: int, j: int|
                0 <= i < more.len() && 0 <= j < more.len() && i != j implies types[(
            #[trigger] more[i]).index as int].name@ != types[(
            #[trigger] more[j]).index as int].name@ by {
                if i < done.len() && j < done.len() {
                    assert(more[i] == done[i] && more[j] == done[j]);
                } else if i < done.len() {
                    assert(more[i] == done[i]);
                } else {
                    assert(more[j] == done[j]);
                }
            }
            lemma_collect_names_once(
                types,
                more,
                pending.drop_first() + children(types, r.index as int),
            );
        }
    }
}

/// Every name appears once in what the collector builds, whatever the roots
/// and whatever the catalog: also where types refer to themselves or to each
/// other.
pub proof fn lemma_collected_names_once(types: Seq<NamedType>, roots: Seq<TypeDesc>)
    ensures
        names_once(types, collect_order(types, roots)),
        names_of(collected(types, roots)).no_duplicates(),
{
    lemma_collect_names_once(types, Seq::empty(), referenced_by_all(types, roots));
    let done = collect_order(types, roots);
    let names = names_of(collected(types, roots));
    assert forall|i: int, j: int|
        0 <= i < names.len() && 0 <= j < names.len() && i != j implies names[i] != names[j] by {
        assert(names[i] == types[done[i].index as int].name@);
        assert(names[j] == types[done[j].index as int].name@);
    }
}

/// A root that carries a name is the first that the collector registers: the
/// registry that it builds for this root alone holds the root's schema under
/// the root's name, and no other entry under that name.
pub proof fn lemma_collected_root(types: Seq<NamedType>, root: TypeDesc)
    requires
        schema_name_of(types, root) is Some,
    ensures
        collected(types, seq![root]).len() > 0,
        collected(types, seq![root])[0] == (
            schema_name_of(types, root)->0,
            schema_of(types, root)->0,
        ),
        names_of(collected(types, seq![root])).no_duplicates(),
{
    let r = resolve(types, root)->0;
    lemma_named_type(types, root);
    let roots = seq![root];
    assert(roots.drop_last() =~= Seq::<TypeDesc>::empty());
    assert(referenced_by_all(types, roots.drop_last()) =~= Seq::<NamedRef>::empty());
    assert(referenced_by_all(types, roots) =~= seq![r]);
    let pending = seq![r];
    let empty = Seq::<NamedRef>::empty();
    assert(!registered(types, empty, types[r.index as int].name@));
    let next = pending.drop_first() + children(types, r.index as int);
    assert(collect_from(types, empty, pending) == collect_from(types, empty.push(r), next));
    lemma_collect_keeps_done(types, empty.push(r), next);
    let result = collect_from(types, empty.push(r), next);
    assert(result[0] == empty.push(r)[0]);
    lemma_collected_names_once(types, roots);
}

/// Whether `left` and `right` point to the same types, one by one.
pub open spec fn same_positions(left: Seq<NamedRef>, right: Seq<NamedRef>) -> bool {
    &&& left.len() == right.len()
    &&& forall|k: int| 0 <= k < left.len() ==> (#[trigger] left[k]).index == right[k].index
}

/// What the collector registers depends on the positions of the references
/// alone, not on their nullable marks.
pub proof fn lemma_collect_same_positions(
    types: Seq<NamedType>,
    done: Seq<NamedRef>,
    pending: Seq<NamedRef>,
    other_done: Seq<NamedRef>,
    other_pending: Seq<NamedRef>,
)
    requires
        same_positions(done, other_done),
        same_positions(pending, other_pending),
    ensures
        same_positions(
            collect_from(types, done, pending),
            collect_from(types, other_done, other_pending),
        ),
    decreases unregistered(types, done, types.len()), pending.len(),
{
    if pending.len() > 0 {
        let r = pending.first();
        let other = other_pending.first();
        assert(pending[0].index == other_pending[0].index);
        let name = types[r.index as int].name@;
        assert(registered(types, done, name) == registered(types, other_done, name)) by {
            if registered(types, done, name) {
                let j = choose|j: int|
                    0 <= j < done.len() && types[(#[trigger] done[j]).index as int].name@ == name;
                assert(types[other_done[j].index as int].name@ == name);
            }
            if registered(types, other_done, name) {
                let j = choose|j: int|
                    0 <= j < other_done.len() && types[(
                    #[trigger] other_done[j]).index as int].name@ == name;
                assert(types[done[j].index as int].name@ == name);
            }
        }
        let rest = pending.drop_first();
        let other_rest = other_pending.drop_first();
        assert(same_positions(rest, other_rest)) by {
            assert forall|k: int| 0 <= k < rest.len() implies (#[trigger] rest[k]).index
                == other_rest[k].index by {
                assert(pending[k + 1].index == other_pending[k + 1].index);
            }
        }
        if r.index >= types.len() || registered(types, done, name) {
            lemma_collect_same_positions(types, done, rest, other_done, other_rest);
        } else {
            lemma_unregistered_shrinks(types, done, r, types.len());
            let kids = children(types, r.index as int);
            let more = done.push(r);
            let other_more = other_done.push(other);
            assert(same_positions(more, other_more)) by {
                assert forall|k: int| 0 <= k < more.len() implies (#[trigger] more[k]).index
                    == other_more[k].index by {
                    if k < done.len() {
                        assert(done[k].index == other_done[k].index);
                    }
                }
            }
            assert(same_positions(rest + kids, other_rest + kids)) by {
                assert forall|k: int| 0 <= k < (rest + kids).len() implies (#[trigger] (rest
                    + kids)[k]).index == (other_rest + kids)[k].index by {
                    if k < rest.len() {
                        assert(rest[k].index == other_rest[k].index);
                    }
                }
            }
            lemma_collect_same_positions(types, more, rest + kids, other_more, other_rest + kids);
        }
    }
}

/// An optional root reaches what its inner type reaches: the collector
/// registers the same types under the same names, in the same order.
pub proof fn lemma_optional_root(types: Seq<NamedType>, inner: TypeDesc)
    ensures
        same_positions(
            collect_order(types, seq![TypeDesc::Optional(Box::new(inner))]),
            collect_order(types, seq![inner]),
        ),
        names_of(collected(types, seq![TypeDesc::Optional(Box::new(inner))])) == names_of(
            collected(types, seq![inner]),
        ),
{
    let optional = TypeDesc::Optional(Box::new(inner));
    lemma_single_root(types, optional);
    lemma_single_root(types, inner);
    let starts = referenced(types, inner);
    let optional_starts = referenced(types, optional);
    assert(same_positions(optional_starts, starts));
    let empty = Seq::<NamedRef>::empty();
    lemma_collect_same_positions(types, empty, optional_starts, empty, starts);
    let left = collect_order(types, seq![optional]);
    let right = collect_order(types, seq![inner]);
    assert(names_of(entries_of(types, left)) =~= names_of(entries_of(types, right))) by {
        assert forall|k: int| 0 <= k < left.len() implies types[left[k].index as int].name@
            == types[right[k].index as int].name@ by {
            assert(left[k].index == right[k].index);
        }
    }
}

/// Whether every reference of `refs` points into the catalog.
pub open spec fn all_declared(types: Seq<NamedType>, refs: Seq<NamedRef>) -> bool {
    forall|k: int| 0 <= k < refs.len() ==> (#[trigger] refs[k]).index < types.len()
}

/// A name is registered among `done` exactly where the entries that stand for
/// `done` hold it.
pub proof fn lemma_registered_entries(types: Seq<NamedType>, done: Seq<NamedRef>, name: Seq<char>)
    ensures
        registered(types, done, name) == has_name(entries_of(types, done), name),
{
    let entries = entries_of(types, done);
    if registered(types, done, name) {
        let j = choose|j: int|
            0 <= j < done.len() && types[(#[trigger] done[j]).index as int].name@ == name;
        assert(entries[j].0 == name);
    }
    if has_name(entries, name) {
        let j = choose|j: int| 0 <= j < entries.len() && (#[trigger] entries[j]).0 == name;
        assert(types[done[j].index as int].name@ == name);
    }
}

impl TypeDesc {
    /// Appends to `out` the named types that this descriptor refers to.
    pub(crate) fn push_referenced(&self, catalog: &TypeCatalog, out: &mut Vec<NamedRef>)
        requires
            all_declared(catalog.types@, old(out)@),
        ensures
            final(out)@ == old(out)@ + referenced(catalog.types@, *self),
            all_declared(catalog.types@, final(out)@),
        decreases self,
    {
        match self.resolve(catalog) {
            Some(r) => {
                out.push(r);
                assert(out@ =~= old(out)@ + seq![r]);
            },
            None => match self {
                TypeDesc::Array(inner) => inner.push_referenced(catalog, out),
                TypeDesc::Dictionary(inner) => inner.push_referenced(catalog, out),
                TypeDesc::Optional(inner) => inner.push_referenced(catalog, out),
                TypeDesc::Fallible(inner) => inner.push_referenced(catalog, out),
                TypeDesc::Body(inner) => inner.push_referenced(catalog, out),
                _ => {
                    assert(out@ =~= old(out)@ + Seq::<NamedRef>::empty());
                },
            },
        }
    }
}

impl TypeCatalog {
    /// Appends to `out` the named types that the fields of the type at
    /// `index` refer to.
    pub(crate) fn push_children(&self, index: usize, out: &mut Vec<NamedRef>)
        requires
            index < self.types@.len(),
            all_declared(self.types@, old(out)@),
        ensures
            final(out)@ == old(out)@ + children(self.types@, index as int),
            all_declared(self.types@, final(out)@),
    {
        let fields = &self.types[index].fields;
        let ghost tys = field_types(fields@);
        let mut i: usize = 0;
        assert(out@ =~= old(out)@ + referenced_by_all(self.types@, tys.take(0)));
        while i < fields.len()
            invariant
                i <= fields.len(),
                tys == field_types(fields@),
                out@ == old(out)@ + referenced_by_all(self.types@, tys.take(i as int)),
                all_declared(self.types@, out@),
            decreases fields.len() - i,
        {
            assert(tys.take(i + 1).drop_last() =~= tys.take(i as int));
            assert(tys.take(i + 1).last() == fields@[i as int].ty);
            let ghost before = out@;
            fields[i].ty.push_referenced(self, out);
            assert(out@ =~= old(out)@ + referenced_by_all(self.types@, tys.take(i + 1)));
            i += 1;
        }
        assert(tys.take(fields.len() as int) =~= tys);
    }
}

/// Works off the queue `pending`, starting with an empty registry.
fn collect_pending(catalog: &TypeCatalog, pending: Vec<NamedRef>) -> (registry: ReferenceRegistry)
    requires
        all_declared(catalog.types@, pending@),
    ensures
        registry@ == entries_of(
            catalog.types@,
            collect_from(catalog.types@, Seq::empty(), pending@),
        ),
{
    let ghost types = catalog.types@;
    let ghost starts = pending@;
    let mut pending = pending;
    let mut registry = ReferenceRegistry::new();
    let ghost mut done: Seq<NamedRef> = Seq::empty();
    let mut head: usize = 0;
    assert(pending@.skip(0) =~= pending@);
    assert(registry@ =~= entries_of(types, done));
    while head < pending.len()
        invariant
            head <= pending.len(),
            types == catalog.types@,
            all_declared(types, pending@),
            registry@ == entries_of(types, done),
            collect_from(types, done, pending@.skip(head as int)) == collect_from(
                types,
                Seq::empty(),
                starts,
            ),
        decreases unregistered(types, done, types.len()), pending.len() - head,
    {
        let r = pending[head];
        let ghost rest = pending@.skip(head as int);
        assert(rest.first() == r);
        assert(rest.drop_first() =~= pending@.skip(head + 1));
        let name = &catalog.types[r.index].name;
        proof {
            lemma_registered_entries(types, done, name@);
        }
        if registry.contains(name.as_str()) {
            head += 1;
        } else {
            let node = catalog.named_schema(r);
            registry.insert(name.clone(), node);
            let ghost queue = pending@;
            catalog.push_children(r.index, &mut pending);
            proof {
                lemma_unregistered_shrinks(types, done, r, types.len());
                assert(registry@ =~= entries_of(types, done.push(r)));
                assert(pending@.skip(head + 1) =~= queue.skip(head + 1) + children(
                    types,
                    r.index as int,
                ));
                done = done.push(r);
            }
            head += 1;
        }
    }
    registry
}

/// The registry of every named type that `roots` reach: first the named
/// types that the roots refer to, in the order of the roots, then what those
/// refer to, each name once.
pub fn collect(catalog: &TypeCatalog, roots: &Vec<TypeDesc>) -> (registry: ReferenceRegistry)
    ensures
        registry@ == collected(catalog.types@, roots@),
{
    let ghost types = catalog.types@;
    let mut pending: Vec<NamedRef> = Vec::new();
    let mut k: usize = 0;
    assert(pending@ =~= referenced_by_all(types, roots@.take(0)));
    while k < roots.len()
        invariant
            k <= roots.len(),
            types == catalog.types@,
            pending@ == referenced_by_all(types, roots@.take(k as int)),
            all_declared(types, pending@),
        decreases roots.len() - k,
    {
        assert(roots@.take(k + 1).drop_last() =~= roots@.take(k as int));
        assert(roots@.take(k + 1).last() == roots@[k as int]);
        roots[k].push_referenced(catalog, &mut pending);
        k += 1;
    }
    assert(roots@.take(roots.len() as int) =~= roots@);
    collect_pending(catalog, pending)
}

/// A single root refers to what it refers to as one of many.
pub proof fn lemma_single_root(types: Seq<NamedType>, root: TypeDesc)
    ensures
        referenced_by_all(types, seq![root]) == referenced(types, root),
{
    let roots = seq![root];
    assert(roots.drop_last() =~= Seq::<TypeDesc>::empty());
    assert(referenced_by_all(types, roots.drop_last()) =~= Seq::<NamedRef>::empty());
    assert(referenced_by_all(types, roots) =~= referenced(types, root));
}

/// What can say which named types it reaches.
pub trait HasReferences {
    /// The registry that [`HasReferences::all_references`] returns.
    spec fn references_model(&self, catalog: &TypeCatalog) -> Seq<(Seq<char>, SchemaModel)>;

    /// The registry of every named type reached from here.
    fn all_references(&self, catalog: &TypeCatalog) -> (registry: ReferenceRegistry)
        ensures
            registry@ == self.references_model(catalog),
    ;
}

impl HasReferences for () {
    open spec fn references_model(&self, catalog: &TypeCatalog) -> Seq<(Seq<char>, SchemaModel)> {
        Seq::empty()
    }

    fn all_references(&self, catalog: &TypeCatalog) -> (registry: ReferenceRegistry) {
        ReferenceRegistry::new()
    }
}

impl HasReferences for TypeDesc {
    open spec fn references_model(&self, catalog: &TypeCatalog) -> Seq<(Seq<char>, SchemaModel)> {
        collected(catalog.types@, seq![*self])
    }

    fn all_references(&self, catalog: &TypeCatalog) -> (registry: ReferenceRegistry) {
        let mut pending: Vec<NamedRef> = Vec::new();
        self.push_referenced(catalog, &mut pending);
        proof {
            lemma_single_root(catalog.types@, *self);
            assert(pending@ =~= referenced(catalog.types@, *self));
        }
        collect_pending(catalog, pending)
    }
}

impl HasReferences for Vec<TypeDesc> {
    open spec fn references_model(&self, catalog: &TypeCatalog) -> Seq<(Seq<char>, SchemaModel)> {
        collected(catalog.types@, self@)
    }

    fn all_references(&self, catalog: &TypeCatalog) -> (registry: ReferenceRegistry) {
        collect(catalog, self)
    }
}

} // verus!
