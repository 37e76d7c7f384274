//! Reachability among named types, and what the collector registers in its
//! terms.

use crate::collect::{
    all_declared, children, collect_from, collect_order, field_types, lemma_collect_names_once,
    lemma_unregistered_shrinks, referenced, referenced_by_all, registered, unregistered,
};
use crate::types::{resolve, NamedRef, NamedType, TypeDesc};
use vstd::prelude::*;

verus! {

/// Whether one of `refs` points to the type at `index`.
pub open spec fn among(refs: Seq<NamedRef>, index: int) -> bool {
    exists|k: int| 0 <= k < refs.len() && (#[trigger] refs[k]).index == index
}

/// Whether a field of the type at `from` refers to the type at `to`.
pub open spec fn refers(types: Seq<NamedType>, from: int, to: int) -> bool {
    0 <= from < types.len() && among(children(types, from), to)
}

/// Whether each type of `path` refers to the next.
pub open spec fn is_path(types: Seq<NamedType>, path: Seq<int>) -> bool {
    &&& path.len() > 0
    &&& forall|k: int| 0 <= k < path.len() - 1 ==> refers(types, #[trigger] path[k], path[k + 1])
}

/// Whether a path leads from one of `starts` to the type at `index`.
pub open spec fn reaches(types: Seq<NamedType>, starts: Seq<NamedRef>, index: int) -> bool {
    exists|path: Seq<int>|
        #[trigger] is_path(types, path) && among(starts, path.first()) && path.last() == index
}

/// Whether the type at `index` is reachable by reference from `roots`.
pub open spec fn reachable(types: Seq<NamedType>, roots: Seq<TypeDesc>, index: int) -> bool {
    reaches(types, referenced_by_all(types, roots), index)
}

/// Whether no two types of the catalog have the same name.
pub open spec fn distinct_names(types: Seq<NamedType>) -> bool {
    forall|i: int, j: int|
        0 <= i < types.len() && 0 <= j < types.len() && i != j ==> (#[trigger] types[i]).name@ != (
        #[trigger] types[j]).name@
}

/// What holds of the collector's state at every step: all that is registered
/// or pending is reachable; every start is registered or pending; and what a
/// registered type refers to is registered or pending.
pub open spec fn on_track(
    types: Seq<NamedType>,
    starts: Seq<NamedRef>,
    done: Seq<NamedRef>,
    pending: Seq<NamedRef>,
) -> bool {
    &&& all_declared(types, done)
    &&& all_declared(types, pending)
    &&& forall|j: int| #[trigger] among(done, j) ==> reaches(types, starts, j)
    &&& forall|j: int| #[trigger] among(pending, j) ==> reaches(types, starts, j)
    &&& forall|j: int| #[trigger] among(starts, j) ==> among(done, j) || among(pending, j)
    &&& forall|i: int, j: int|
        among(done, i) && #[trigger] refers(types, i, j) ==> among(done, j) || among(pending, j)
}

/// The named types that a descriptor refers to are declared.
pub proof fn lemma_referenced_declared(types: Seq<NamedType>, ty: TypeDesc)
    ensures
        all_declared(types, referenced(types, ty)),
    decreases ty,
{
    match resolve(types, ty) {
        Some(r) => {
            crate::types::lemma_named_type(types, ty);
        },
        None => match ty {
            TypeDesc::Array(inner) => lemma_referenced_declared(types, *inner),
            TypeDesc::Dictionary(inner) => lemma_referenced_declared(types, *inner),
            TypeDesc::Optional(inner) => lemma_referenced_declared(types, *inner),
            TypeDesc::Fallible(inner) => lemma_referenced_declared(types, *inner),
            TypeDesc::Body(inner) => lemma_referenced_declared(types, *inner),
            _ => {},
        },
    }
}

/// The named types that a sequence of descriptors refers to are declared.
pub proof fn lemma_referenced_by_all_declared(types: Seq<NamedType>, roots: Seq<TypeDesc>)
    ensures
        all_declared(types, referenced_by_all(types, roots)),
    decreases roots.len(),
{
    if roots.len() > 0 {
        lemma_referenced_by_all_declared(types, roots.drop_last());
        lemma_referenced_declared(types, roots.last());
    }
}

/// With distinct names in the catalog, a declared reference whose name is
/// registered is itself among the registered ones.
proof fn lemma_registered_among(types: Seq<NamedType>, done: Seq<NamedRef>, r: NamedRef)
    requires
        distinct_names(types),
        all_declared(types, done),
        r.index < types.len(),
    ensures
        registered(types, done, types[r.index as int].name@) == among(done, r.index as int),
{
    let name = types[r.index as int].name@;
    if registered(types, done, name) {
        let j = choose|j: int|
            0 <= j < done.len() && types[(#[trigger] done[j]).index as int].name@ == name;
        assert(done[j].index == r.index);
    }
    if among(done, r.index as int) {
        let k = choose|k: int| 0 <= k < done.len() && (#[trigger] done[k]).index == r.index;
        assert(types[done[k].index as int].name@ == name);
    }
}

/// A reference among `front + back` is among `front` or among `back`.
proof fn lemma_among_concat(front: Seq<NamedRef>, back: Seq<NamedRef>, index: int)
    ensures
        among(front + back, index) == (among(front, index) || among(back, index)),
{
    let all = front + back;
    if among(all, index) {
        let k = choose|k: int| 0 <= k < all.len() && (#[trigger] all[k]).index == index;
        if k < front.len() {
            assert(front[k].index == index);
        } else {
            assert(back[k - front.len()].index == index);
        }
    }
    if among(front, index) {
        let k = choose|k: int| 0 <= k < front.len() && (#[trigger] front[k]).index == index;
        assert(all[k].index == index);
    }
    if among(back, index) {
        let k = choose|k: int| 0 <= k < back.len() && (#[trigger] back[k]).index == index;
        assert(all[front.len() + k].index == index);
    }
}

/// A reference among a queue is its first or among the rest.
proof fn lemma_among_first(queue: Seq<NamedRef>, index: int)
    requires
        queue.len() > 0,
    ensures
        among(queue, index) == (queue.first().index == index || among(queue.drop_first(), index)),
{
    let rest = queue.drop_first();
    if among(queue, index) {
        let k = choose|k: int| 0 <= k < queue.len() && (#[trigger] queue[k]).index == index;
        if k > 0 {
            assert(rest[k - 1].index == index);
        }
    }
    if among(rest, index) {
        let k = choose|k: int| 0 <= k < rest.len() && (#[trigger] rest[k]).index == index;
        assert(queue[k + 1].index == index);
    }
    if queue.first().index == index {
        assert(queue[0].index == index);
    }
}

/// A reference among `done.push(r)` is `r` or among `done`.
proof fn lemma_among_push(done: Seq<NamedRef>, r: NamedRef, index: int)
    ensures
        among(done.push(r), index) == (r.index == index || among(done, index)),
{
    let more = done.push(r);
    if among(more, index) {
        let k = choose|k: int| 0 <= k < more.len() && (#[trigger] more[k]).index == index;
        if k < done.len() {
            assert(done[k].index == index);
        }
    }
    if among(done, index) {
        let k = choose|k: int| 0 <= k < done.len() && (#[trigger] done[k]).index == index;
        assert(more[k].index == index);
    }
    if r.index == index {
        assert(more[done.len() as int].index == index);
    }
}

/// What a reachable type refers to is reachable.
proof fn lemma_reaches_step(types: Seq<NamedType>, starts: Seq<NamedRef>, from: int, to: int)
    requires
        reaches(types, starts, from),
        refers(types, from, to),
    ensures
        reaches(types, starts, to),
{
    let path = choose|path: Seq<int>|
        #[trigger] is_path(types, path) && among(starts, path.first()) && path.last() == from;
    let longer = path.push(to);
    assert forall|k: int| 0 <= k < longer.len() - 1 implies refers(
        types,
        #[trigger] longer[k],
        longer[k + 1],
    ) by {
        if k < path.len() - 1 {
            assert(refers(types, path[k], path[k + 1]));
        }
    }
    assert(is_path(types, longer));
    assert(longer.first() == path.first());
}

/// Every start is reachable.
proof fn lemma_reaches_start(types: Seq<NamedType>, starts: Seq<NamedRef>, index: int)
    requires
        among(starts, index),
    ensures
        reaches(types, starts, index),
{
    let path = seq![index];
    assert(is_path(types, path));
    assert(path.first() == index && path.last() == index);
}

/// Where the registered types hold every start and all that they refer to,
/// they hold every type on a path from a start.
proof fn lemma_closed_holds_path(
    types: Seq<NamedType>,
    starts: Seq<NamedRef>,
    done: Seq<NamedRef>,
    path: Seq<int>,
    k: int,
)
    requires
        is_path(types, path),
        among(starts, path.first()),
        forall|j: int| #[trigger] among(starts, j) ==> among(done, j),
        forall|i: int, j: int| among(done, i) && #[trigger] refers(types, i, j) ==> among(done, j),
        0 <= k < path.len(),
    ensures
        among(done, path[k]),
    decreases k,
{
    if k > 0 {
        lemma_closed_holds_path(types, starts, done, path, k - 1);
        assert(refers(types, path[k - 1], path[k - 1 + 1]));
    }
}

/// The named types that the fields of a declared type refer to are declared.
proof fn lemma_children_declared(types: Seq<NamedType>, index: int)
    ensures
        all_declared(types, children(types, index)),
{
    lemma_referenced_by_all_declared(types, field_types(types[index].fields@));
}

/// Skipping a pending reference that is registered already keeps the
/// collector on track.
proof fn lemma_skip_on_track(
    types: Seq<NamedType>,
    starts: Seq<NamedRef>,
    done: Seq<NamedRef>,
    pending: Seq<NamedRef>,
)
    requires
        on_track(types, starts, done, pending),
        pending.len() > 0,
        among(done, pending.first().index as int),
    ensures
        on_track(types, starts, done, pending.drop_first()),
{
    let rest = pending.drop_first();
    assert forall|k: int| 0 <= k < rest.len() implies (#[trigger] rest[k]).index
        < types.len() by {
        assert(rest[k] == pending[k + 1]);
    }
    assert forall|j: int| #[trigger] among(rest, j) implies reaches(types, starts, j) by {
        lemma_among_first(pending, j);
    }
    assert forall|j: int| #[trigger] among(starts, j) implies among(done, j) || among(rest, j) by {
        lemma_among_first(pending, j);
    }
    assert forall|i: int, j: int| among(done, i) && #[trigger] refers(types, i, j) implies among(
        done,
        j,
    ) || among(rest, j) by {
        lemma_among_first(pending, j);
    }
}

/// Registering the first pending reference, and queueing what its type refers
/// to, keeps the collector on track.
proof fn lemma_register_on_track(
    types: Seq<NamedType>,
    starts: Seq<NamedRef>,
    done: Seq<NamedRef>,
    pending: Seq<NamedRef>,
)
    requires
        on_track(types, starts, done, pending),
        pending.len() > 0,
    ensures
        on_track(
            types,
            starts,
            done.push(pending.first()),
            pending.drop_first() + children(types, pending.first().index as int),
        ),
{
    let r = pending.first();
    let rest = pending.drop_first();
    let kids = children(types, r.index as int);
    let more = done.push(r);
    let next = rest + kids;
    assert(pending[0].index < types.len());
    assert(among(pending, r.index as int));
    lemma_children_declared(types, r.index as int);
    assert forall|k: int| 0 <= k < more.len() implies (#[trigger] more[k]).index
        < types.len() by {
        if k < done.len() {
            assert(more[k] == done[k]);
        }
    }
    assert forall|k: int| 0 <= k < next.len() implies (#[trigger] next[k]).index
        < types.len() by {
        if k < rest.len() {
            assert(next[k] == pending[k + 1]);
        } else {
            assert(next[k] == kids[k - rest.len()]);
        }
    }
    assert forall|j: int| #[trigger] among(more, j) implies reaches(types, starts, j) by {
        lemma_among_push(done, r, j);
    }
    assert forall|j: int| #[trigger] among(next, j) implies reaches(types, starts, j) by {
        lemma_among_concat(rest, kids, j);
        lemma_among_first(pending, j);
        if among(kids, j) {
            assert(refers(types, r.index as int, j));
            lemma_reaches_step(types, starts, r.index as int, j);
        }
    }
    assert forall|j: int| #[trigger] among(starts, j) implies among(more, j) || among(next, j) by {
        lemma_among_push(done, r, j);
        lemma_among_concat(rest, kids, j);
        lemma_among_first(pending, j);
    }
    assert forall|i: int, j: int| among(more, i) && #[trigger] refers(types, i, j) implies among(
        more,
        j,
    ) || among(next, j) by {
        lemma_among_push(done, r, i);
        lemma_among_push(done, r, j);
        lemma_among_concat(rest, kids, j);
        lemma_among_first(pending, j);
    }
}

/// From a state that is on track, the collector registers exactly the types
/// that are reachable from the starts.
proof fn lemma_walk(
    types: Seq<NamedType>,
    starts: Seq<NamedRef>,
    done: Seq<NamedRef>,
    pending: Seq<NamedRef>,
)
    requires
        distinct_names(types),
        on_track(types, starts, done, pending),
    ensures
        all_declared(types, collect_from(types, done, pending)),
        forall|j: int|
            #[trigger] among(collect_from(types, done, pending), j) <==> reaches(types, starts, j),
    decreases unregistered(types, done, types.len()), pending.len(),
{
    if pending.len() == 0 {
        assert forall|j: int| reaches(types, starts, j) implies #[trigger] among(done, j) by {
            let path = choose|path: Seq<int>|
                #[trigger] is_path(types, path) && among(starts, path.first()) && path.last() == j;
            assert forall|i: int| #[trigger] among(pending, i) implies false by {}
            lemma_closed_holds_path(types, starts, done, path, path.len() - 1);
        }
    } else {
        let r = pending.first();
        assert(pending[0].index < types.len());
        lemma_registered_among(types, done, r);
        if registered(types, done, types[r.index as int].name@) {
            lemma_skip_on_track(types, starts, done, pending);
            lemma_walk(types, starts, done, pending.drop_first());
        } else {
            lemma_unregistered_shrinks(types, done, r, types.len());
            lemma_register_on_track(types, starts, done, pending);
            lemma_walk(
                types,
                starts,
                done.push(r),
                pending.drop_first() + children(types, r.index as int),
            );
        }
    }
}

/// The positions in the catalog of the registered references `done`.
pub open spec fn positions(done: Seq<NamedRef>) -> Seq<int> {
    Seq::new(done.len(), |k: int| done[k].index as int)
}

/// With distinct names in the catalog, the collector registers a type if and
/// only if it is reachable by reference from the roots, and registers it
/// once: the registry has as many entries as there are reachable types. This
/// holds of every catalog, with or without cycles among its types.
pub proof fn lemma_collect_reachable(types: Seq<NamedType>, roots: Seq<TypeDesc>)
    requires
        distinct_names(types),
    ensures
        forall|j: int|
            #[trigger] among(collect_order(types, roots), j) <==> reachable(types, roots, j),
        positions(collect_order(types, roots)).no_duplicates(),
        positions(collect_order(types, roots)).to_set() == Set::new(
            |j: int| reachable(types, roots, j),
        ),
        Set::new(|j: int| reachable(types, roots, j)).finite(),
        collect_order(types, roots).len() == Set::new(|j: int| reachable(types, roots, j)).len(),
{
    let starts = referenced_by_all(types, roots);
    let empty = Seq::<NamedRef>::empty();
    lemma_referenced_by_all_declared(types, roots);
    assert forall|j: int| #[trigger] among(starts, j) implies reaches(types, starts, j) by {
        lemma_reaches_start(types, starts, j);
    }
    assert(on_track(types, starts, empty, starts));
    lemma_walk(types, starts, empty, starts);
    lemma_collect_names_once(types, empty, starts);
    let done = collect_order(types, roots);
    let places = positions(done);
    assert forall|a: int, b: int|
        0 <= a < places.len() && 0 <= b < places.len() && a != b implies places[a]
        != places[b] by {
        assert(types[done[a].index as int].name@ != types[done[b].index as int].name@);
    }
    let reached = Set::new(|j: int| reachable(types, roots, j));
    assert forall|j: int| places.to_set().contains(j) <==> reached.contains(j) by {
        if places.contains(j) {
            let k = choose|k: int| 0 <= k < places.len() && places[k] == j;
            assert(done[k].index == j);
            assert(among(done, j));
        }
        if among(done, j) {
            let k = choose|k: int| 0 <= k < done.len() && (#[trigger] done[k]).index == j;
            assert(places[k] == j);
        }
    }
    assert(places.to_set() =~= reached);
    places.unique_seq_to_set();
    vstd::seq_lib::seq_to_set_is_finite(places);
}

} // verus!
