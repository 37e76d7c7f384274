//! The document: the route table and the component registry.

use crate::names::{index_set_items, set_get_index, set_index_of, set_insert_full, set_new};
use crate::operation::{OperationDescriptor, OperationModel};
use crate::path::{normalize, normalize_path};
use crate::registry::{with_entries, ReferenceRegistry};
use crate::schema::SchemaModel;
use indexmap::IndexSet;
use vstd::prelude::*;

verus! {

/// The HTTP methods under which an operation can be registered.
#[derive(Clone, Copy, Debug, PartialEq, Eq, Structural)]
pub enum Method {
    Get,
    Post,
    Put,
    Delete,
    Options,
    Head,
    Patch,
    Trace,
}

/// The operations registered at one path, one slot for each method.
pub struct PathItem {
    pub get: Option<OperationDescriptor>,
    pub post: Option<OperationDescriptor>,
    pub put: Option<OperationDescriptor>,
    pub delete: Option<OperationDescriptor>,
    pub options: Option<OperationDescriptor>,
    pub head: Option<OperationDescriptor>,
    pub patch: Option<OperationDescriptor>,
    pub trace: Option<OperationDescriptor>,
}

impl PathItem {
    /// The slot of `method`.
    pub open spec fn slot(self, method: Method) -> Option<OperationDescriptor> {
        match method {
            Method::Get => self.get,
            Method::Post => self.post,
            Method::Put => self.put,
            Method::Delete => self.delete,
            Method::Options => self.options,
            Method::Head => self.head,
            Method::Patch => self.patch,
            Method::Trace => self.trace,
        }
    }

    /// A path without operations.
    pub fn new() -> (item: PathItem)
        ensures
            item@ == Map::<Method, OperationModel>::empty(),
    {
        let item = PathItem {
            get: None,
            post: None,
            put: None,
            delete: None,
            options: None,
            head: None,
            patch: None,
            trace: None,
        };
        assert(item@ =~= Map::empty());
        item
    }

    /// The operation registered under `method`, if any.
    pub fn operation(&self, method: Method) -> (operation: Option<&OperationDescriptor>)
        ensures
            match operation {
                Some(found) => self@.contains_key(method) && self@[method] == found@,
                None => !self@.contains_key(method),
            },
    {
        match method {
            Method::Get => self.get.as_ref(),
            Method::Post => self.post.as_ref(),
            Method::Put => self.put.as_ref(),
            Method::Delete => self.delete.as_ref(),
            Method::Options => self.options.as_ref(),
            Method::Head => self.head.as_ref(),
            Method::Patch => self.patch.as_ref(),
            Method::Trace => self.trace.as_ref(),
        }
    }

    /// Puts `operation` into the slot of `method`, in place of what was there.
    pub fn set(&mut self, method: Method, operation: OperationDescriptor)
        ensures
            final(self)@ == old(self)@.insert(method, operation@),
    {
        match method {
            Method::Get => self.get = Some(operation),
            Method::Post => self.post = Some(operation),
            Method::Put => self.put = Some(operation),
            Method::Delete => self.delete = Some(operation),
            Method::Options => self.options = Some(operation),
            Method::Head => self.head = Some(operation),
            Method::Patch => self.patch = Some(operation),
            Method::Trace => self.trace = Some(operation),
        }
        assert(self@ =~= old(self)@.insert(method, operation@));
    }
}

impl View for PathItem {
    type V = Map<Method, OperationModel>;

    open spec fn view(&self) -> Map<Method, OperationModel> {
        Map::new(|method: Method| self.slot(method) is Some, |method: Method| self.slot(method)->0@)
    }
}

/// What a [`Document`] stands for: the registered paths in the order of their
/// first registration, each with its operations by method, and the component
/// registry.
pub struct DocumentModel {
    pub paths: Seq<(Seq<char>, Map<Method, OperationModel>)>,
    pub components: Seq<(Seq<char>, SchemaModel)>,
}

/// Whether `paths` holds an entry for `key`.
pub open spec fn has_path(paths: Seq<(Seq<char>, Map<Method, OperationModel>)>, key: Seq<char>) -> bool {
    exists|i: int| 0 <= i < paths.len() && (#[trigger] paths[i]).0 == key
}

/// The position of the entry for `key`, where `paths` holds one.
pub open spec fn path_position(
    paths: Seq<(Seq<char>, Map<Method, OperationModel>)>,
    key: Seq<char>,
) -> int {
    choose|i: int| 0 <= i < paths.len() && (#[trigger] paths[i]).0 == key
}

/// The paths of `paths`, in order.
pub open spec fn path_keys(paths: Seq<(Seq<char>, Map<Method, OperationModel>)>) -> Seq<Seq<char>> {
    Seq::new(paths.len(), |i: int| paths[i].0)
}

/// `paths` after `operation` is put into the slot of `method` at `key`: into
/// the entry for `key` where there is one, into a new last entry where not.
pub open spec fn with_operation(
    paths: Seq<(Seq<char>, Map<Method, OperationModel>)>,
    key: Seq<char>,
    method: Method,
    operation: OperationModel,
) -> Seq<(Seq<char>, Map<Method, OperationModel>)> {
    if has_path(paths, key) {
        let i = path_position(paths, key);
        paths.update(i, (key, paths[i].1.insert(method, operation)))
    } else {
        paths.push((key, Map::<Method, OperationModel>::empty().insert(method, operation)))
    }
}

/// The document after the registration of `operation` for `method` at `path`:
/// the operation stands in its slot under the normalized path, and the named
/// types that it reaches are merged into the components, where of two entries
/// under one name the first stays.
pub open spec fn registration(
    document: DocumentModel,
    path: Seq<char>,
    method: Method,
    operation: OperationModel,
) -> DocumentModel {
    DocumentModel {
        paths: with_operation(document.paths, normalize(path), method, operation),
        components: with_entries(document.components, operation.references),
    }
}

/// What a registration does to the route table: the operation stands in its
/// slot under the normalized path; the table grows by one entry where the
/// normalized path is new and keeps its length where it is not; the entries
/// keep their order and their paths, every other entry is as before, and so
/// are the other slots at the path itself.
pub proof fn lemma_registration(
    document: DocumentModel,
    path: Seq<char>,
    method: Method,
    operation: OperationModel,
)
    requires
        path_keys(document.paths).no_duplicates(),
    ensures
        ({
            let after = registration(document, path, method, operation).paths;
            let key = normalize(path);
            let position = path_position(after, key);
            &&& path_keys(after).no_duplicates()
            &&& has_path(after, key)
            &&& 0 <= position < after.len()
            &&& after[position].0 == key
            &&& after[position].1.contains_key(method)
            &&& after[position].1[method] == operation
            &&& after.len() == document.paths.len() + if has_path(document.paths, key) {
                0int
            } else {
                1int
            }
            &&& forall|i: int|
                0 <= i < document.paths.len() ==> (#[trigger] after[i]).0 == document.paths[i].0
            &&& forall|i: int|
                0 <= i < document.paths.len() && document.paths[i].0 != key ==> #[trigger] after[i]
                    == document.paths[i]
            &&& forall|other: Method|
                other != method ==> (after[position].1.contains_key(other) <==> has_path(
                    document.paths,
                    key,
                ) && document.paths[path_position(document.paths, key)].1.contains_key(other))
            &&& forall|other: Method|
                other != method && after[position].1.contains_key(other) ==> after[position].1[other]
                    == document.paths[path_position(document.paths, key)].1[other]
        }),
{
    let before = document.paths;
    let after = registration(document, path, method, operation).paths;
    let key = normalize(path);
    if has_path(before, key) {
        let i = path_position(before, key);
        assert(after[i].0 == key);
        assert forall|a: int, b: int|
            0 <= a < after.len() && 0 <= b < after.len() && a != b implies path_keys(after)[a]
            != path_keys(after)[b] by {
            assert(path_keys(before)[a] != path_keys(before)[b]);
        }
        let position = path_position(after, key);
        assert(path_keys(after)[position] == path_keys(after)[i]);
    } else {
        let last = before.len() as int;
        assert(after[last].0 == key);
        assert forall|a: int, b: int|
            0 <= a < after.len() && 0 <= b < after.len() && a != b implies path_keys(after)[a]
            != path_keys(after)[b] by {
            if a < last && b < last {
                assert(path_keys(before)[a] != path_keys(before)[b]);
            } else if a < last {
                assert(before[a].0 != key);
            } else {
                assert(before[b].0 != key);
            }
        }
        let position = path_position(after, key);
        assert(path_keys(after)[position] == path_keys(after)[last]);
    }
}

/// Two registrations whose paths have the same normalized form meet in one
/// entry of the route table: the second adds no path, and where the methods
/// differ both operations stand in that entry.
pub proof fn lemma_same_path_one_entry(
    document: DocumentModel,
    first_path: Seq<char>,
    first_method: Method,
    first: OperationModel,
    second_path: Seq<char>,
    second_method: Method,
    second: OperationModel,
)
    requires
        path_keys(document.paths).no_duplicates(),
        normalize(first_path) == normalize(second_path),
    ensures
        ({
            let once = registration(document, first_path, first_method, first);
            let twice = registration(once, second_path, second_method, second);
            let position = path_position(twice.paths, normalize(first_path));
            &&& twice.paths.len() == once.paths.len()
            &&& path_keys(twice.paths) == path_keys(once.paths)
            &&& 0 <= position < twice.paths.len()
            &&& twice.paths[position].1.contains_key(second_method)
            &&& twice.paths[position].1[second_method] == second
            &&& first_method != second_method ==> twice.paths[position].1.contains_key(first_method)
                && twice.paths[position].1[first_method] == first
        }),
{
    let once = registration(document, first_path, first_method, first);
    let twice = registration(once, second_path, second_method, second);
    lemma_registration(document, first_path, first_method, first);
    lemma_registration(once, second_path, second_method, second);
    assert(path_keys(twice.paths) =~= path_keys(once.paths));
}

/// A path written with a colon-prefixed name and the same path written with
/// the name in braces are stored under one path.
pub proof fn lemma_both_spellings_one_entry(
    document: DocumentModel,
    path: Seq<char>,
    first_method: Method,
    first: OperationModel,
    second_method: Method,
    second: OperationModel,
)
    requires
        path_keys(document.paths).no_duplicates(),
    ensures
        registration(
            registration(document, path, first_method, first),
            normalize(path),
            second_method,
            second,
        ).paths.len() == registration(document, path, first_method, first).paths.len(),
{
    crate::path::lemma_normalize_idempotent(path);
    lemma_same_path_one_entry(
        document,
        path,
        first_method,
        first,
        normalize(path),
        second_method,
        second,
    );
}

/// Registering a second operation for the same path and method replaces the
/// first: the route table is what it would be had only the second been
/// registered, and holds as many paths as after the first.
pub proof fn lemma_registration_replaces(
    document: DocumentModel,
    path: Seq<char>,
    method: Method,
    first: OperationModel,
    second: OperationModel,
)
    requires
        path_keys(document.paths).no_duplicates(),
    ensures
        registration(registration(document, path, method, first), path, method, second).paths
            == registration(document, path, method, second).paths,
        registration(
            registration(document, path, method, first),
            path,
            method,
            second,
        ).paths.len() == registration(document, path, method, first).paths.len(),
{
    let once = registration(document, path, method, first);
    let twice = registration(once, path, method, second);
    let only = registration(document, path, method, second);
    let key = normalize(path);
    lemma_registration(document, path, method, first);
    lemma_registration(document, path, method, second);
    lemma_registration(once, path, method, second);
    let position = path_position(once.paths, key);
    assert(path_position(twice.paths, key) == position) by {
        assert(path_keys(twice.paths)[path_position(twice.paths, key)] == path_keys(
            twice.paths,
        )[position]);
    }
    assert(path_position(only.paths, key) == position) by {
        if has_path(document.paths, key) {
            let i = path_position(document.paths, key);
            assert(path_keys(once.paths)[i] == path_keys(once.paths)[position]);
            assert(path_keys(only.paths)[path_position(only.paths, key)] == path_keys(
                only.paths,
            )[i]);
        } else {
            let last = document.paths.len() as int;
            assert(once.paths[last].0 == key);
            assert(only.paths[last].0 == key);
            assert(path_keys(once.paths)[last] == path_keys(once.paths)[position]);
            assert(path_keys(only.paths)[path_position(only.paths, key)] == path_keys(
                only.paths,
            )[last]);
        }
    }
    assert forall|i: int| 0 <= i < twice.paths.len() implies twice.paths[i] == only.paths[i] by {
        if i == position {
            assert(twice.paths[i].1 =~= only.paths[i].1);
        } else {
            assert(once.paths[i].0 != key) by {
                assert(path_keys(once.paths)[i] != path_keys(once.paths)[position]);
            }
            assert(twice.paths[i] == once.paths[i]);
            if i < document.paths.len() {
                assert(document.paths[i].0 != key);
            }
        }
    }
    assert(twice.paths =~= only.paths);
}

/// The route table and the component registry of an API.
pub struct Document {
    paths: IndexSet<String>,
    items: Vec<PathItem>,
    components: ReferenceRegistry,
}

impl View for Document {
    type V = DocumentModel;

    closed spec fn view(&self) -> DocumentModel {
        DocumentModel {
            paths: Seq::new(
                self.items@.len(),
                |i: int| (index_set_items(self.paths)[i], self.items@[i]@),
            ),
            components: self.components@,
        }
    }
}

impl Document {
    #[verifier::type_invariant]
    spec fn well_formed(&self) -> bool {
        &&& index_set_items(self.paths).len() == self.items@.len()
        &&& index_set_items(self.paths).no_duplicates()
    }

    /// A document without paths and without components.
    pub fn new() -> (document: Document)
        ensures
            document@.paths == Seq::<(Seq<char>, Map<Method, OperationModel>)>::empty(),
            document@.components == Seq::<(Seq<char>, SchemaModel)>::empty(),
    {
        let document = Document {
            paths: set_new(),
            items: Vec::new(),
            components: ReferenceRegistry::new(),
        };
        assert(document@.paths =~= Seq::empty());
        document
    }

    /// The number of paths. No two entries stand under the same path.
    pub fn path_count(&self) -> (n: usize)
        ensures
            n == self@.paths.len(),
            path_keys(self@.paths).no_duplicates(),
    {
        proof {
            use_type_invariant(self);
            assert(path_keys(self@.paths) =~= index_set_items(self.paths));
        }
        self.items.len()
    }

    /// The path at position `i`.
    pub fn path_at(&self, i: usize) -> (path: &String)
        requires
            i < self@.paths.len(),
        ensures
            path@ == self@.paths[i as int].0,
    {
        proof {
            use_type_invariant(self);
        }
        match set_get_index(&self.paths, i) {
            Some(path) => path,
            None => vstd::pervasive::unreached(),
        }
    }

    /// The operations at position `i`.
    pub fn item_at(&self, i: usize) -> (item: &PathItem)
        requires
            i < self@.paths.len(),
        ensures
            item@ == self@.paths[i as int].1,
    {
        &self.items[i]
    }

    /// The operations stored under `key`, if the document holds that path.
    pub fn item(&self, key: &str) -> (item: Option<&PathItem>)
        ensures
            match item {
                Some(found) => has_path(self@.paths, key@) && self@.paths[path_position(
                    self@.paths,
                    key@,
                )] == (key@, found@),
                None => !has_path(self@.paths, key@),
            },
    {
        proof {
            use_type_invariant(self);
        }
        match set_index_of(&self.paths, key) {
            Some(i) => {
                proof {
                    self.lemma_position(key@, i as int);
                }
                Some(&self.items[i])
            },
            None => {
                assert forall|i: int| 0 <= i < self@.paths.len() implies (
                #[trigger] self@.paths[i]).0 != key@ by {
                    assert(index_set_items(self.paths)[i] != key@);
                }
                None
            },
        }
    }

    /// The component registry.
    pub fn components(&self) -> (components: &ReferenceRegistry)
        ensures
            components@ == self@.components,
    {
        &self.components
    }

    /// The entry for a path stands where the set of paths holds the path.
    proof fn lemma_position(&self, key: Seq<char>, i: int)
        requires
            self.well_formed(),
            0 <= i < index_set_items(self.paths).len(),
            index_set_items(self.paths)[i] == key,
        ensures
            has_path(self@.paths, key),
            path_position(self@.paths, key) == i,
    {
        assert(self@.paths[i].0 == key);
        let j = path_position(self@.paths, key);
        assert(index_set_items(self.paths)[j] == key);
    }

    /// Registers `operation` for `method` at `path`.
    pub fn register(&mut self, path: &str, method: Method, operation: OperationDescriptor)
        ensures
            final(self)@ == registration(old(self)@, path@, method, operation@),
    {
        proof {
            use_type_invariant(&*self);
        }
        let key = normalize_path(path);
        let ghost before = *self;
        let ghost names = index_set_items(self.paths);
        assert(has_path(before@.paths, key@) == names.contains(key@)) by {
            if has_path(before@.paths, key@) {
                let i = path_position(before@.paths, key@);
                assert(names[i] == key@);
            }
            if names.contains(key@) {
                let i = choose|i: int| 0 <= i < names.len() && names[i] == key@;
                before.lemma_position(key@, i);
            }
        }
        let mut taken = Document::new();
        core::mem::swap(self, &mut taken);
        let Document { mut paths, mut items, mut components } = taken;
        components.merge(&operation.references);
        let (index, inserted) = set_insert_full(&mut paths, key);
        if inserted {
            items.push(PathItem::new());
        } else {
            proof {
                before.lemma_position(key@, index as int);
            }
        }
        let ghost operation_model = operation@;
        items[index].set(method, operation);
        *self = Document { paths, items, components };
        assert(self@.paths =~= with_operation(before@.paths, key@, method, operation_model));
    }
}

} // verus!
