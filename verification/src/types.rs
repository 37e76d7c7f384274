//! Type descriptors and their reflection into schema nodes.
//!
//! A type takes part in the schema system as a [`TypeDesc`] value. Named types
//! are declared in a [`TypeCatalog`] and referred to by their position in it,
//! so that a type can refer to itself or to a type declared after it.

use crate::schema::{
    node_model, nullable, object_properties, parameter_models, property_models, property_names,
    text_model,
    ParameterDescriptor, ParameterLocation, ParameterModel, Property, PropertyModel, SchemaModel,
    SchemaNode,
};
use vstd::prelude::*;

verus! {

/// One positional argument of a path-carrying wrapper.
#[derive(Debug, PartialEq, Eq)]
pub struct PathArgument {
    pub name: String,
    pub ty: TypeDesc,
}

/// The description of a type.
#[derive(Debug, PartialEq, Eq)]
pub enum TypeDesc {
    /// The empty tuple, and envelope or marker types: no schema, no parameters.
    Unit,
    Bool,
    Integer,
    Number,
    Text,
    /// A string in UUID format.
    Uuid,
    /// An opaque JSON value.
    Json,
    Array(Box<TypeDesc>),
    Optional(Box<TypeDesc>),
    /// A map from strings to values of the given type.
    Dictionary(Box<TypeDesc>),
    /// A result-like wrapper, given by its success type.
    Fallible(Box<TypeDesc>),
    /// A wrapper that carries its inner type as the body of a request or response.
    Body(Box<TypeDesc>),
    /// A wrapper that reads the properties of its inner object from the query string.
    Query(Box<TypeDesc>),
    /// A wrapper that reads the properties of its inner object from the headers.
    Header(Box<TypeDesc>),
    /// A wrapper that reads its positional arguments from the path.
    Path(Vec<PathArgument>),
    /// The named type declared at this position of the catalog.
    Named(usize),
}

/// One declared field of a named type.
#[derive(Debug, PartialEq, Eq)]
pub struct Field {
    pub name: String,
    pub ty: TypeDesc,
    pub required: bool,
}

/// A named object type: it appears in the component registry under its name.
#[derive(Debug, PartialEq, Eq)]
pub struct NamedType {
    pub name: String,
    pub fields: Vec<Field>,
}

/// The named types that descriptors can refer to.
#[derive(Debug, PartialEq, Eq)]
pub struct TypeCatalog {
    pub types: Vec<NamedType>,
}

/// A named type as a descriptor refers to it: its position in the catalog, and
/// whether the reference passes through an optional wrapper.
#[derive(Clone, Copy, Debug, PartialEq, Eq, Structural)]
pub struct NamedRef {
    pub index: usize,
    pub nullable: bool,
}

/// The named type that `ty` stands for, if it stands for one: a declared
/// `Named` position, seen through optional, fallible and body wrappers.
pub open spec fn resolve(types: Seq<NamedType>, ty: TypeDesc) -> Option<NamedRef>
    decreases ty,
{
    match ty {
        TypeDesc::Named(index) => if index < types.len() {
            Some(NamedRef { index, nullable: false })
        } else {
            None
        },
        TypeDesc::Optional(inner) => match resolve(types, *inner) {
            Some(r) => Some(NamedRef { index: r.index, nullable: true }),
            None => None,
        },
        TypeDesc::Fallible(inner) => resolve(types, *inner),
        TypeDesc::Body(inner) => resolve(types, *inner),
        _ => None,
    }
}

/// The name under which `ty` appears in the component registry.
pub open spec fn schema_name_of(types: Seq<NamedType>, ty: TypeDesc) -> Option<Seq<char>> {
    match resolve(types, ty) {
        Some(r) => Some(types[r.index as int].name@),
        None => None,
    }
}

/// How `ty` is referred to from a containing type: a named type by a
/// reference to its registry entry, every other type by its own structure.
/// Optional, fallible and body wrappers hand on what their inner type gives.
pub open spec fn schema_ref_of(types: Seq<NamedType>, ty: TypeDesc) -> Option<SchemaModel>
    decreases ty,
{
    match ty {
        TypeDesc::Bool => Some(SchemaModel::Boolean),
        TypeDesc::Integer => Some(SchemaModel::Integer),
        TypeDesc::Number => Some(SchemaModel::Number),
        TypeDesc::Text => Some(SchemaModel::String { format: None }),
        TypeDesc::Uuid => Some(SchemaModel::String { format: Some("uuid"@) }),
        TypeDesc::Json => Some(SchemaModel::Object { properties: Seq::empty() }),
        TypeDesc::Array(inner) => Some(
            SchemaModel::Array { items: boxed(schema_ref_of(types, *inner)) },
        ),
        TypeDesc::Dictionary(inner) => Some(
            SchemaModel::Mapping { value: boxed(schema_ref_of(types, *inner)) },
        ),
        TypeDesc::Optional(inner) => schema_ref_of(types, *inner),
        TypeDesc::Fallible(inner) => schema_ref_of(types, *inner),
        TypeDesc::Body(inner) => schema_ref_of(types, *inner),
        TypeDesc::Named(index) => if index < types.len() {
            Some(SchemaModel::Reference { name: types[index as int].name@ })
        } else {
            None
        },
        _ => None,
    }
}

/// An optional node in a box.
pub open spec fn boxed(node: Option<SchemaModel>) -> Option<Box<SchemaModel>> {
    match node {
        Some(n) => Some(Box::new(n)),
        None => None,
    }
}

/// The properties that `fields` give rise to, in declared order. A field whose
/// type has no schema gives none.
pub open spec fn field_properties(types: Seq<NamedType>, fields: Seq<Field>) -> Seq<PropertyModel>
    decreases fields.len(),
{
    if fields.len() == 0 {
        Seq::empty()
    } else {
        let rest = field_properties(types, fields.drop_last());
        let field = fields.last();
        match schema_ref_of(types, field.ty) {
            Some(schema) => rest.push(
                PropertyModel { name: field.name@, schema, required: field.required },
            ),
            None => rest,
        }
    }
}

/// The object schema of the named type at `index`.
pub open spec fn object_schema(types: Seq<NamedType>, index: int) -> SchemaModel {
    SchemaModel::Object { properties: field_properties(types, types[index].fields@) }
}

/// The registry entry that a reference to a named type contributes.
pub open spec fn named_schema(types: Seq<NamedType>, r: NamedRef) -> SchemaModel {
    if r.nullable {
        nullable(object_schema(types, r.index as int))
    } else {
        object_schema(types, r.index as int)
    }
}

/// The structural description of `ty`'s own shape. An array or a dictionary
/// holds how its inner type is referred to; an optional wrapper marks what its
/// inner type gives as nullable; fallible and body wrappers hand it on.
pub open spec fn schema_of(types: Seq<NamedType>, ty: TypeDesc) -> Option<SchemaModel>
    decreases ty,
{
    match ty {
        TypeDesc::Bool => Some(SchemaModel::Boolean),
        TypeDesc::Integer => Some(SchemaModel::Integer),
        TypeDesc::Number => Some(SchemaModel::Number),
        TypeDesc::Text => Some(SchemaModel::String { format: None }),
        TypeDesc::Uuid => Some(SchemaModel::String { format: Some("uuid"@) }),
        TypeDesc::Json => Some(SchemaModel::Object { properties: Seq::empty() }),
        TypeDesc::Array(inner) => Some(
            SchemaModel::Array { items: boxed(schema_ref_of(types, *inner)) },
        ),
        TypeDesc::Dictionary(inner) => Some(
            SchemaModel::Mapping { value: boxed(schema_ref_of(types, *inner)) },
        ),
        TypeDesc::Optional(inner) => match schema_of(types, *inner) {
            Some(node) => Some(nullable(node)),
            None => None,
        },
        TypeDesc::Fallible(inner) => schema_of(types, *inner),
        TypeDesc::Body(inner) => schema_of(types, *inner),
        TypeDesc::Named(index) => if index < types.len() {
            Some(object_schema(types, index as int))
        } else {
            None
        },
        _ => None,
    }
}

/// One parameter for each of `properties`, at `location`.
pub open spec fn property_parameters(
    properties: Seq<PropertyModel>,
    location: ParameterLocation,
) -> Seq<ParameterModel> {
    Seq::new(
        properties.len(),
        |i: int|
            ParameterModel {
                name: properties[i].name,
                location,
                required: properties[i].required,
                schema: properties[i].schema,
            },
    )
}

/// The parameters that a wrapper around an object type decomposes into: one
/// for each property of the inner type's schema, or `None` where the inner
/// type has no object schema.
pub open spec fn object_parameters(
    types: Seq<NamedType>,
    inner: TypeDesc,
    location: ParameterLocation,
) -> Option<Seq<ParameterModel>> {
    match schema_of(types, inner) {
        Some(node) => match object_properties(node) {
            Some(properties) => Some(property_parameters(properties, location)),
            None => None,
        },
        None => None,
    }
}

/// One required path parameter for each positional argument, in order, named
/// as the argument is. An argument whose type has no schema gives none.
pub open spec fn path_parameters(types: Seq<NamedType>, arguments: Seq<PathArgument>) -> Seq<
    ParameterModel,
>
    decreases arguments.len(),
{
    if arguments.len() == 0 {
        Seq::empty()
    } else {
        let rest = path_parameters(types, arguments.drop_last());
        let argument = arguments.last();
        match schema_of(types, argument.ty) {
            Some(schema) => rest.push(
                ParameterModel {
                    name: argument.name@,
                    location: ParameterLocation::Path,
                    required: true,
                    schema,
                },
            ),
            None => rest,
        }
    }
}

/// The parameters that `ty` contributes to an operation; `None` where `ty` is
/// no parameter-carrying wrapper.
pub open spec fn parameters_of(types: Seq<NamedType>, ty: TypeDesc) -> Option<Seq<ParameterModel>>
    decreases ty,
{
    match ty {
        TypeDesc::Query(inner) => object_parameters(types, *inner, ParameterLocation::Query),
        TypeDesc::Header(inner) => object_parameters(types, *inner, ParameterLocation::Header),
        TypeDesc::Path(arguments) => Some(path_parameters(types, arguments@)),
        TypeDesc::Fallible(inner) => parameters_of(types, *inner),
        _ => None,
    }
}

/// Whether one of `fields` has the name `name`.
pub open spec fn has_field(fields: Seq<Field>, name: Seq<char>) -> bool {
    exists|i: int| 0 <= i < fields.len() && (#[trigger] fields[i]).name@ == name
}

/// The models of an optional vector of parameters.
pub open spec fn parameters_model(parameters: Option<Vec<ParameterDescriptor>>) -> Option<
    Seq<ParameterModel>,
> {
    match parameters {
        Some(list) => Some(parameter_models(list@)),
        None => None,
    }
}

impl TypeCatalog {
    /// A catalog without types.
    pub fn new() -> (catalog: TypeCatalog)
        ensures
            catalog.types@.len() == 0,
    {
        TypeCatalog { types: Vec::new() }
    }

    /// The number of declared types.
    pub fn len(&self) -> (n: usize)
        ensures
            n == self.types@.len(),
    {
        self.types.len()
    }

    /// Declares a named type without fields and returns its position, by which
    /// `TypeDesc::Named` refers to it.
    pub fn declare(&mut self, name: &str) -> (index: usize)
        ensures
            index == old(self).types@.len(),
            final(self).types@.len() == index + 1,
            final(self).types@.take(index as int) == old(self).types@,
            final(self).types@[index as int].name@ == name@,
            final(self).types@[index as int].fields@.len() == 0,
    {
        let index = self.types.len();
        self.types.push(NamedType { name: name.to_owned(), fields: Vec::new() });
        assert(self.types@.take(index as int) =~= old(self).types@);
        index
    }

    /// Adds a field to the type at `index`, after the fields it has, and says
    /// whether it did: nothing is added where no type is declared at `index`,
    /// or where the type has a field of that name already.
    pub fn add_field(&mut self, index: usize, name: &str, ty: TypeDesc, required: bool) -> (added:
        bool)
        ensures
            added == (index < old(self).types@.len() && !has_field(
                old(self).types@[index as int].fields@,
                name@,
            )),
            !added ==> final(self).types@ == old(self).types@,
            final(self).types@.len() == old(self).types@.len(),
            index < old(self).types@.len() && distinct_fields(
                old(self).types@[index as int].fields@,
            ) ==> distinct_fields(final(self).types@[index as int].fields@),
            forall|i: int|
                0 <= i < old(self).types@.len() && i != index ==> final(self).types@[i] == old(
                    self,
                ).types@[i],
            added ==> {
                &&& final(self).types@[index as int].name == old(self).types@[index as int].name
                &&& final(self).types@[index as int].fields@.drop_last() == old(
                    self,
                ).types@[index as int].fields@
                &&& final(self).types@[index as int].fields@.len() == old(
                    self,
                ).types@[index as int].fields@.len() + 1
                &&& final(self).types@[index as int].fields@.last().name@ == name@
                &&& final(self).types@[index as int].fields@.last().ty == ty
                &&& final(self).types@[index as int].fields@.last().required == required
            },
    {
        if index >= self.types.len() {
            return false;
        }
        let owned = name.to_owned();
        let fields = &self.types[index].fields;
        let mut i: usize = 0;
        while i < fields.len()
            invariant
                i <= fields.len(),
                owned@ == name@,
                fields@ == old(self).types@[index as int].fields@,
                forall|j: int| 0 <= j < i ==> (#[trigger] fields@[j]).name@ != name@,
            decreases fields.len() - i,
        {
            if fields[i].name == owned {
                return false;
            }
            i += 1;
        }
        let ghost before = self.types@[index as int].fields@;
        self.types[index].fields.push(Field { name: owned, ty, required });
        let ghost after = self.types@[index as int].fields@;
        assert(after.drop_last() =~= before);
        assert(distinct_fields(before) ==> distinct_fields(after)) by {
            if distinct_fields(before) {
                assert forall|i: int, j: int|
                    0 <= i < after.len() && 0 <= j < after.len() && i != j implies (
                #[trigger] after[i]).name@ != (#[trigger] after[j]).name@ by {
                    if i < before.len() {
                        assert(after[i] == before[i]);
                    }
                    if j < before.len() {
                        assert(after[j] == before[j]);
                    }
                }
            }
        }
        true
    }

    /// The object schema of the type at `index`: one property for each field
    /// whose type has a schema, in declared order.
    pub(crate) fn object_schema(&self, index: usize) -> (node: SchemaNode)
        requires
            index < self.types@.len(),
        ensures
            node@ == object_schema(self.types@, index as int),
    {
        let fields = &self.types[index].fields;
        let mut properties: Vec<Property> = Vec::new();
        let mut i: usize = 0;
        while i < fields.len()
            invariant
                i <= fields.len(),
                property_models(properties@) == field_properties(self.types@, fields@.take(i as int)),
            decreases fields.len() - i,
        {
            let field = &fields[i];
            assert(fields@.take(i + 1).drop_last() =~= fields@.take(i as int));
            assert(fields@.take(i + 1).last() == fields@[i as int]);
            match field.ty.reflect_ref(self) {
                Some(schema) => {
                    properties.push(
                        Property { name: field.name.clone(), schema, required: field.required },
                    );
                    assert(property_models(properties@) =~= field_properties(
                        self.types@,
                        fields@.take(i + 1),
                    ));
                },
                None => {},
            }
            i += 1;
        }
        assert(fields@.take(fields.len() as int) =~= fields@);
        let node = SchemaNode::Object { properties };
        assert(node@->properties =~= property_models(properties@));
        node
    }

    /// The registry entry that `r` contributes.
    pub(crate) fn named_schema(&self, r: NamedRef) -> (node: SchemaNode)
        requires
            r.index < self.types@.len(),
        ensures
            node@ == named_schema(self.types@, r),
    {
        let node = self.object_schema(r.index);
        if r.nullable {
            node.into_nullable()
        } else {
            node
        }
    }
}

impl TypeDesc {
    /// The named type that this descriptor stands for, if any.
    pub fn resolve(&self, catalog: &TypeCatalog) -> (r: Option<NamedRef>)
        ensures
            r == resolve(catalog.types@, *self),
            r matches Some(found) ==> found.index < catalog.types@.len(),
        decreases self,
    {
        match self {
            TypeDesc::Named(index) => if *index < catalog.types.len() {
                Some(NamedRef { index: *index, nullable: false })
            } else {
                None
            },
            TypeDesc::Optional(inner) => match inner.resolve(catalog) {
                Some(r) => Some(NamedRef { index: r.index, nullable: true }),
                None => None,
            },
            TypeDesc::Fallible(inner) => inner.resolve(catalog),
            TypeDesc::Body(inner) => inner.resolve(catalog),
            _ => None,
        }
    }

    /// How this descriptor is referred to from a containing type.
    pub(crate) fn reflect_ref(&self, catalog: &TypeCatalog) -> (node: Option<SchemaNode>)
        ensures
            node_model(node) == schema_ref_of(catalog.types@, *self),
        decreases self,
    {
        match self {
            TypeDesc::Bool => Some(SchemaNode::Boolean),
            TypeDesc::Integer => Some(SchemaNode::Integer),
            TypeDesc::Number => Some(SchemaNode::Number),
            TypeDesc::Text => Some(SchemaNode::String { format: None }),
            TypeDesc::Uuid => Some(SchemaNode::String { format: Some("uuid".to_owned()) }),
            TypeDesc::Json => Some(empty_object()),
            TypeDesc::Array(inner) => Some(
                SchemaNode::Array {
                    items: match inner.reflect_ref(catalog) {
                        Some(items) => Some(Box::new(items)),
                        None => None,
                    },
                },
            ),
            TypeDesc::Dictionary(inner) => Some(
                SchemaNode::Mapping {
                    value: match inner.reflect_ref(catalog) {
                        Some(value) => Some(Box::new(value)),
                        None => None,
                    },
                },
            ),
            TypeDesc::Optional(inner) => inner.reflect_ref(catalog),
            TypeDesc::Fallible(inner) => inner.reflect_ref(catalog),
            TypeDesc::Body(inner) => inner.reflect_ref(catalog),
            TypeDesc::Named(index) => if *index < catalog.types.len() {
                Some(SchemaNode::Reference { name: catalog.types[*index].name.clone() })
            } else {
                None
            },
            _ => None,
        }
    }

    /// One parameter at `location` for each of `properties`.
    fn property_parameters(properties: &Vec<Property>, location: ParameterLocation) -> (list: Vec<
        ParameterDescriptor,
    >)
        ensures
            parameter_models(list@) == property_parameters(property_models(properties@), location),
    {
        let mut list: Vec<ParameterDescriptor> = Vec::new();
        let mut i: usize = 0;
        while i < properties.len()
            invariant
                i <= properties.len(),
                list.len() == i,
                forall|j: int|
                    0 <= j < i ==> list@[j]@ == (ParameterModel {
                        name: properties@[j].name@,
                        location,
                        required: properties@[j].required,
                        schema: properties@[j].schema@,
                    }),
            decreases properties.len() - i,
        {
            let property = &properties[i];
            list.push(
                ParameterDescriptor {
                    name: property.name.clone(),
                    location,
                    required: property.required,
                    schema: property.schema.clone(),
                },
            );
            i += 1;
        }
        assert(parameter_models(list@) =~= property_parameters(
            property_models(properties@),
            location,
        ));
        list
    }

    /// The parameters that a wrapper around this descriptor decomposes into.
    fn object_parameters(&self, catalog: &TypeCatalog, location: ParameterLocation) -> (list:
        Option<Vec<ParameterDescriptor>>)
        ensures
            parameters_model(list) == object_parameters(catalog.types@, *self, location),
    {
        match self.reflect(catalog) {
            Some(node) => match &node {
                SchemaNode::Object { properties } => {
                    assert(node@->properties =~= property_models(properties@));
                    Some(Self::property_parameters(properties, location))
                },
                SchemaNode::Nullable { inner } => match &**inner {
                    SchemaNode::Object { properties } => {
                        assert(inner@->properties =~= property_models(properties@));
                        Some(Self::property_parameters(properties, location))
                    },
                    _ => None,
                },
                _ => None,
            },
            None => None,
        }
    }

    /// One required path parameter for each argument that has a schema.
    fn path_parameters(arguments: &Vec<PathArgument>, catalog: &TypeCatalog) -> (list: Vec<
        ParameterDescriptor,
    >)
        ensures
            parameter_models(list@) == path_parameters(catalog.types@, arguments@),
    {
        let mut list: Vec<ParameterDescriptor> = Vec::new();
        let mut i: usize = 0;
        while i < arguments.len()
            invariant
                i <= arguments.len(),
                parameter_models(list@) == path_parameters(
                    catalog.types@,
                    arguments@.take(i as int),
                ),
            decreases arguments.len() - i,
        {
            let argument = &arguments[i];
            assert(arguments@.take(i + 1).drop_last() =~= arguments@.take(i as int));
            assert(arguments@.take(i + 1).last() == arguments@[i as int]);
            match argument.ty.reflect(catalog) {
                Some(schema) => {
                    list.push(
                        ParameterDescriptor {
                            name: argument.name.clone(),
                            location: ParameterLocation::Path,
                            required: true,
                            schema,
                        },
                    );
                    assert(parameter_models(list@) =~= path_parameters(
                        catalog.types@,
                        arguments@.take(i + 1),
                    ));
                },
                None => {},
            }
            i += 1;
        }
        assert(arguments@.take(arguments.len() as int) =~= arguments@);
        list
    }

    /// The parameters that this descriptor contributes to an operation.
    pub(crate) fn reflect_parameters(&self, catalog: &TypeCatalog) -> (list: Option<
        Vec<ParameterDescriptor>,
    >)
        ensures
            parameters_model(list) == parameters_of(catalog.types@, *self),
        decreases self,
    {
        match self {
            TypeDesc::Query(inner) => inner.object_parameters(catalog, ParameterLocation::Query),
            TypeDesc::Header(inner) => inner.object_parameters(catalog, ParameterLocation::Header),
            TypeDesc::Path(arguments) => Some(Self::path_parameters(arguments, catalog)),
            TypeDesc::Fallible(inner) => inner.reflect_parameters(catalog),
            _ => None,
        }
    }

    /// The structural description of this descriptor's own shape.
    pub(crate) fn reflect(&self, catalog: &TypeCatalog) -> (node: Option<SchemaNode>)
        ensures
            node_model(node) == schema_of(catalog.types@, *self),
        decreases self,
    {
        match self {
            TypeDesc::Bool => Some(SchemaNode::Boolean),
            TypeDesc::Integer => Some(SchemaNode::Integer),
            TypeDesc::Number => Some(SchemaNode::Number),
            TypeDesc::Text => Some(SchemaNode::String { format: None }),
            TypeDesc::Uuid => Some(SchemaNode::String { format: Some("uuid".to_owned()) }),
            TypeDesc::Json => Some(empty_object()),
            TypeDesc::Array(inner) => Some(
                SchemaNode::Array {
                    items: match inner.reflect_ref(catalog) {
                        Some(items) => Some(Box::new(items)),
                        None => None,
                    },
                },
            ),
            TypeDesc::Dictionary(inner) => Some(
                SchemaNode::Mapping {
                    value: match inner.reflect_ref(catalog) {
                        Some(value) => Some(Box::new(value)),
                        None => None,
                    },
                },
            ),
            TypeDesc::Optional(inner) => match inner.reflect(catalog) {
                Some(node) => Some(node.into_nullable()),
                None => None,
            },
            TypeDesc::Fallible(inner) => inner.reflect(catalog),
            TypeDesc::Body(inner) => inner.reflect(catalog),
            TypeDesc::Named(index) => if *index < catalog.types.len() {
                Some(catalog.object_schema(*index))
            } else {
                None
            },
            _ => None,
        }
    }
}

/// An object schema without properties.
fn empty_object() -> (node: SchemaNode)
    ensures
        node@ == (SchemaModel::Object { properties: Seq::empty() }),
{
    let node = SchemaNode::Object { properties: Vec::new() };
    assert(node@->properties =~= Seq::empty());
    node
}

/// Whether no two of `fields` have the same name.
pub open spec fn distinct_fields(fields: Seq<Field>) -> bool {
    forall|i: int, j: int|
        0 <= i < fields.len() && 0 <= j < fields.len() && i != j ==> (#[trigger] fields[i]).name@
            != (#[trigger] fields[j]).name@
}

/// Every property stands for a field, under the field's name and with the
/// field's requirement; and where no two fields have the same name, no two
/// properties have: the properties of an object are a mapping from names.
pub proof fn lemma_field_properties(types: Seq<NamedType>, fields: Seq<Field>)
    ensures
        field_properties(types, fields).len() <= fields.len(),
        forall|k: int|
            0 <= k < field_properties(types, fields).len() ==> exists|i: int|
                0 <= i < fields.len() && (#[trigger] fields[i]).name@ == (
                #[trigger] field_properties(types, fields)[k]).name && fields[i].required
                    == field_properties(types, fields)[k].required && schema_ref_of(
                    types,
                    fields[i].ty,
                ) == Some(field_properties(types, fields)[k].schema),
        distinct_fields(fields) ==> property_names(field_properties(types, fields)).no_duplicates(),
    decreases fields.len(),
{
    if fields.len() > 0 {
        let front = fields.drop_last();
        let last = fields.last();
        lemma_field_properties(types, front);
        let rest = field_properties(types, front);
        let all = field_properties(types, fields);
        assert forall|k: int| 0 <= k < all.len() implies exists|i: int|
            0 <= i < fields.len() && (#[trigger] fields[i]).name@ == (#[trigger] all[k]).name
                && fields[i].required == all[k].required && schema_ref_of(types, fields[i].ty)
                == Some(all[k].schema) by {
            if k < rest.len() {
                assert(all[k] == rest[k]);
                let i = choose|i: int|
                    0 <= i < front.len() && (#[trigger] front[i]).name@ == (#[trigger] rest[k]).name
                        && front[i].required == rest[k].required && schema_ref_of(
                        types,
                        front[i].ty,
                    ) == Some(rest[k].schema);
                assert(fields[i] == front[i]);
            } else {
                assert(fields[fields.len() - 1] == last);
            }
        }
        if distinct_fields(fields) {
            assert(distinct_fields(front)) by {
                assert forall|i: int, j: int|
                    0 <= i < front.len() && 0 <= j < front.len() && i != j implies (
                #[trigger] front[i]).name@ != (#[trigger] front[j]).name@ by {
                    assert(fields[i] == front[i] && fields[j] == front[j]);
                }
            }
            let names = property_names(all);
            assert forall|a: int, b: int|
                0 <= a < names.len() && 0 <= b < names.len() && a != b implies names[a]
                != names[b] by {
                if a < rest.len() && b < rest.len() {
                    assert(property_names(rest)[a] != property_names(rest)[b]);
                } else {
                    let old = if a < rest.len() {
                        a
                    } else {
                        b
                    };
                    let i = choose|i: int|
                        0 <= i < front.len() && (#[trigger] front[i]).name@ == (
                        #[trigger] rest[old]).name && front[i].required == rest[old].required
                            && schema_ref_of(types, front[i].ty) == Some(rest[old].schema);
                    assert(fields[i] == front[i]);
                    assert(fields[i].name@ != fields[fields.len() - 1].name@);
                }
            }
        }
    }
}

/// Whether `ty` is an optional wrapper, seen through fallible and body wrappers.
pub open spec fn is_optional(ty: TypeDesc) -> bool
    decreases ty,
{
    match ty {
        TypeDesc::Optional(_) => true,
        TypeDesc::Fallible(inner) => is_optional(*inner),
        TypeDesc::Body(inner) => is_optional(*inner),
        _ => false,
    }
}

/// A type that stands for a named type carries that type's name, is referred
/// to by a reference to that name, and has the named type's object schema as
/// its own, marked nullable where an optional wrapper stands in between.
pub proof fn lemma_named_type(types: Seq<NamedType>, ty: TypeDesc)
    requires
        resolve(types, ty) is Some,
    ensures
        schema_name_of(types, ty) == Some(types[resolve(types, ty)->0.index as int].name@),
        schema_ref_of(types, ty) == Some(
            SchemaModel::Reference { name: types[resolve(types, ty)->0.index as int].name@ },
        ),
        schema_of(types, ty) == Some(named_schema(types, resolve(types, ty)->0)),
        resolve(types, ty)->0.index < types.len(),
        resolve(types, ty)->0.nullable == is_optional(ty),
        parameters_of(types, ty) is None,
    decreases ty,
{
    match ty {
        TypeDesc::Optional(inner) => lemma_named_type(types, *inner),
        TypeDesc::Fallible(inner) => lemma_named_type(types, *inner),
        TypeDesc::Body(inner) => lemma_named_type(types, *inner),
        _ => {},
    }
}

/// A type that stands for no named type has no name, and is referred to by
/// its own schema: exactly so where no optional wrapper stands around it, and
/// without the nullable mark where one does.
pub proof fn lemma_anonymous_type(types: Seq<NamedType>, ty: TypeDesc)
    requires
        resolve(types, ty) is None,
    ensures
        schema_name_of(types, ty) is None,
        schema_of(types, ty) is Some <==> schema_ref_of(types, ty) is Some,
        schema_of(types, ty) is Some && !is_optional(ty) ==> schema_of(types, ty) == schema_ref_of(
            types,
            ty,
        ),
        schema_of(types, ty) is Some && is_optional(ty) ==> schema_of(types, ty) == Some(
            nullable(schema_ref_of(types, ty)->0),
        ),
    decreases ty,
{
    match ty {
        TypeDesc::Optional(inner) => lemma_anonymous_type(types, *inner),
        TypeDesc::Fallible(inner) => lemma_anonymous_type(types, *inner),
        TypeDesc::Body(inner) => lemma_anonymous_type(types, *inner),
        _ => {},
    }
}

/// The schema of an array, and of a dictionary, holds how the inner type is
/// referred to, and is there even where the inner type has no schema. Neither
/// has a name or parameters.
pub proof fn lemma_containers(types: Seq<NamedType>, inner: TypeDesc)
    ensures
        schema_of(types, TypeDesc::Array(Box::new(inner))) == Some(
            SchemaModel::Array { items: boxed(schema_ref_of(types, inner)) },
        ),
        schema_of(types, TypeDesc::Dictionary(Box::new(inner))) == Some(
            SchemaModel::Mapping { value: boxed(schema_ref_of(types, inner)) },
        ),
        schema_ref_of(types, TypeDesc::Array(Box::new(inner))) == schema_of(
            types,
            TypeDesc::Array(Box::new(inner)),
        ),
        schema_ref_of(types, TypeDesc::Dictionary(Box::new(inner))) == schema_of(
            types,
            TypeDesc::Dictionary(Box::new(inner)),
        ),
        schema_name_of(types, TypeDesc::Array(Box::new(inner))) is None,
        schema_name_of(types, TypeDesc::Dictionary(Box::new(inner))) is None,
        parameters_of(types, TypeDesc::Array(Box::new(inner))) is None,
        parameters_of(types, TypeDesc::Dictionary(Box::new(inner))) is None,
{
}

/// An optional wrapper has the name and the reference of its inner type, and
/// the inner type's schema marked nullable.
pub proof fn lemma_optional(types: Seq<NamedType>, inner: TypeDesc)
    ensures
        schema_name_of(types, TypeDesc::Optional(Box::new(inner))) == schema_name_of(types, inner),
        schema_ref_of(types, TypeDesc::Optional(Box::new(inner))) == schema_ref_of(types, inner),
        schema_of(types, TypeDesc::Optional(Box::new(inner))) == match schema_of(types, inner) {
            Some(node) => Some(nullable(node)),
            None => None,
        },
{
}

/// Fallible wrappers hand on all four answers of their success type; body
/// wrappers hand on its name, its reference and its schema.
pub proof fn lemma_forwarding(types: Seq<NamedType>, inner: TypeDesc)
    ensures
        schema_name_of(types, TypeDesc::Fallible(Box::new(inner))) == schema_name_of(types, inner),
        schema_ref_of(types, TypeDesc::Fallible(Box::new(inner))) == schema_ref_of(types, inner),
        schema_of(types, TypeDesc::Fallible(Box::new(inner))) == schema_of(types, inner),
        parameters_of(types, TypeDesc::Fallible(Box::new(inner))) == parameters_of(types, inner),
        schema_name_of(types, TypeDesc::Body(Box::new(inner))) == schema_name_of(types, inner),
        schema_ref_of(types, TypeDesc::Body(Box::new(inner))) == schema_ref_of(types, inner),
        schema_of(types, TypeDesc::Body(Box::new(inner))) == schema_of(types, inner),
        parameters_of(types, TypeDesc::Body(Box::new(inner))) is None,
{
}

/// Unit and marker types answer with absence to all four questions, and the
/// parameter-carrying wrappers have neither a name nor a schema.
pub proof fn lemma_absence(types: Seq<NamedType>, inner: TypeDesc, arguments: Vec<PathArgument>)
    ensures
        schema_name_of(types, TypeDesc::Unit) is None,
        schema_ref_of(types, TypeDesc::Unit) is None,
        schema_of(types, TypeDesc::Unit) is None,
        parameters_of(types, TypeDesc::Unit) is None,
        schema_name_of(types, TypeDesc::Query(Box::new(inner))) is None,
        schema_ref_of(types, TypeDesc::Query(Box::new(inner))) is None,
        schema_of(types, TypeDesc::Query(Box::new(inner))) is None,
        schema_name_of(types, TypeDesc::Header(Box::new(inner))) is None,
        schema_ref_of(types, TypeDesc::Header(Box::new(inner))) is None,
        schema_of(types, TypeDesc::Header(Box::new(inner))) is None,
        schema_name_of(types, TypeDesc::Path(arguments)) is None,
        schema_ref_of(types, TypeDesc::Path(arguments)) is None,
        schema_of(types, TypeDesc::Path(arguments)) is None,
{
}

/// What every type that takes part in the schema system offers.
pub trait OaSchema {
    /// The name that [`OaSchema::schema_name`] returns.
    spec fn name_model(&self, catalog: &TypeCatalog) -> Option<Seq<char>>;

    /// The node that [`OaSchema::schema_ref`] returns.
    spec fn schema_ref_model(&self, catalog: &TypeCatalog) -> Option<SchemaModel>;

    /// The node that [`OaSchema::schema`] returns.
    spec fn schema_model(&self, catalog: &TypeCatalog) -> Option<SchemaModel>;

    /// The parameters that [`OaSchema::parameters`] returns.
    spec fn parameter_list_model(&self, catalog: &TypeCatalog) -> Option<Seq<ParameterModel>>;

    /// The name of the component that stands for this type; `None` for
    /// primitive, container and anonymous types.
    fn schema_name(&self, catalog: &TypeCatalog) -> (name: Option<String>)
        ensures
            text_model(name) == self.name_model(catalog),
    ;

    /// How this type is referred to from a containing type.
    fn schema_ref(&self, catalog: &TypeCatalog) -> (node: Option<SchemaNode>)
        ensures
            node_model(node) == self.schema_ref_model(catalog),
    ;

    /// The structural description of this type's own shape.
    fn schema(&self, catalog: &TypeCatalog) -> (node: Option<SchemaNode>)
        ensures
            node_model(node) == self.schema_model(catalog),
    ;

    /// The parameters that this type contributes to an operation.
    fn parameters(&self, catalog: &TypeCatalog) -> (list: Option<Vec<ParameterDescriptor>>)
        ensures
            parameters_model(list) == self.parameter_list_model(catalog),
    ;
}

impl OaSchema for TypeDesc {
    open spec fn name_model(&self, catalog: &TypeCatalog) -> Option<Seq<char>> {
        schema_name_of(catalog.types@, *self)
    }

    open spec fn schema_ref_model(&self, catalog: &TypeCatalog) -> Option<SchemaModel> {
        schema_ref_of(catalog.types@, *self)
    }

    open spec fn schema_model(&self, catalog: &TypeCatalog) -> Option<SchemaModel> {
        schema_of(catalog.types@, *self)
    }

    open spec fn parameter_list_model(&self, catalog: &TypeCatalog) -> Option<Seq<ParameterModel>> {
        parameters_of(catalog.types@, *self)
    }

    fn schema_name(&self, catalog: &TypeCatalog) -> (name: Option<String>) {
        match self.resolve(catalog) {
            Some(r) => Some(catalog.types[r.index].name.clone()),
            None => None,
        }
    }

    fn schema_ref(&self, catalog: &TypeCatalog) -> (node: Option<SchemaNode>) {
        self.reflect_ref(catalog)
    }

    fn schema(&self, catalog: &TypeCatalog) -> (node: Option<SchemaNode>) {
        self.reflect(catalog)
    }

    fn parameters(&self, catalog: &TypeCatalog) -> (list: Option<Vec<ParameterDescriptor>>) {
        self.reflect_parameters(catalog)
    }
}

} // verus!

