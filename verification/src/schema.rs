//! Schema nodes: the structural description of one type.

use vstd::prelude::*;

verus! {

/// One property of an object schema.
#[derive(Debug, PartialEq, Eq)]
pub struct Property {
    pub name: String,
    pub schema: SchemaNode,
    pub required: bool,
}

/// The structural description of a type. Only `Reference` can close a cycle:
/// it names an entry of the component registry instead of embedding it.
#[derive(Debug, PartialEq, Eq)]
pub enum SchemaNode {
    Boolean,
    Integer,
    Number,
    String { format: Option<String> },
    Array { items: Option<Box<SchemaNode>> },
    Object { properties: Vec<Property> },
    Mapping { value: Option<Box<SchemaNode>> },
    Nullable { inner: Box<SchemaNode> },
    Reference { name: String },
}

/// What a [`Property`] stands for.
pub struct PropertyModel {
    pub name: Seq<char>,
    pub schema: SchemaModel,
    pub required: bool,
}

/// What a [`SchemaNode`] stands for: the same tree over sequences.
pub enum SchemaModel {
    Boolean,
    Integer,
    Number,
    String { format: Option<Seq<char>> },
    Array { items: Option<Box<SchemaModel>> },
    Object { properties: Seq<PropertyModel> },
    Mapping { value: Option<Box<SchemaModel>> },
    Nullable { inner: Box<SchemaModel> },
    Reference { name: Seq<char> },
}

impl Property {
    /// The model of this property.
    pub open spec fn model(self) -> PropertyModel
        decreases self,
    {
        PropertyModel { name: self.name@, schema: self.schema.model(), required: self.required }
    }
}

impl SchemaNode {
    /// The model of this node, by recursion over the tree.
    pub open spec fn model(self) -> SchemaModel
        decreases self,
    {
        match self {
            SchemaNode::Boolean => SchemaModel::Boolean,
            SchemaNode::Integer => SchemaModel::Integer,
            SchemaNode::Number => SchemaModel::Number,
            SchemaNode::String { format } => SchemaModel::String {
                format: match format {
                    Some(f) => Some(f@),
                    None => None,
                },
            },
            SchemaNode::Array { items } => SchemaModel::Array {
                items: match items {
                    Some(inner) => Some(Box::new((*inner).model())),
                    None => None,
                },
            },
            SchemaNode::Object { properties } => SchemaModel::Object {
                properties: Seq::new(
                    properties@.len(),
                    |i: int|
                        if 0 <= i < properties@.len() {
                            properties@[i].model()
                        } else {
                            arbitrary()
                        },
                ),
            },
            SchemaNode::Mapping { value } => SchemaModel::Mapping {
                value: match value {
                    Some(inner) => Some(Box::new((*inner).model())),
                    None => None,
                },
            },
            SchemaNode::Nullable { inner } => SchemaModel::Nullable {
                inner: Box::new((*inner).model()),
            },
            SchemaNode::Reference { name } => SchemaModel::Reference { name: name@ },
        }
    }
}

impl View for Property {
    type V = PropertyModel;

    open spec fn view(&self) -> PropertyModel {
        self.model()
    }
}

impl View for SchemaNode {
    type V = SchemaModel;

    open spec fn view(&self) -> SchemaModel {
        self.model()
    }
}

/// Where a request carries a parameter.
#[derive(Clone, Copy, Debug, PartialEq, Eq, Structural)]
pub enum ParameterLocation {
    Path,
    Query,
    Header,
}

/// One parameter of an operation.
#[derive(Debug, PartialEq, Eq)]
pub struct ParameterDescriptor {
    pub name: String,
    pub location: ParameterLocation,
    pub required: bool,
    pub schema: SchemaNode,
}

/// What a [`ParameterDescriptor`] stands for.
pub struct ParameterModel {
    pub name: Seq<char>,
    pub location: ParameterLocation,
    pub required: bool,
    pub schema: SchemaModel,
}

impl View for ParameterDescriptor {
    type V = ParameterModel;

    open spec fn view(&self) -> ParameterModel {
        ParameterModel {
            name: self.name@,
            location: self.location,
            required: self.required,
            schema: self.schema@,
        }
    }
}

impl Clone for ParameterDescriptor {
    fn clone(&self) -> (copy: Self)
        ensures
            copy@ == self@,
    {
        ParameterDescriptor {
            name: self.name.clone(),
            location: self.location,
            required: self.required,
            schema: self.schema.clone(),
        }
    }
}

/// The models of a sequence of parameters.
pub open spec fn parameter_models(parameters: Seq<ParameterDescriptor>) -> Seq<ParameterModel> {
    Seq::new(parameters.len(), |i: int| parameters[i]@)
}

/// The models of a sequence of properties.
pub open spec fn property_models(properties: Seq<Property>) -> Seq<PropertyModel> {
    Seq::new(properties.len(), |i: int| properties[i]@)
}

/// The model of an optional string.
pub open spec fn text_model(text: Option<String>) -> Option<Seq<char>> {
    match text {
        Some(t) => Some(t@),
        None => None,
    }
}

/// The model of an optional node.
pub open spec fn node_model(node: Option<SchemaNode>) -> Option<SchemaModel> {
    match node {
        Some(n) => Some(n@),
        None => None,
    }
}

/// `node` marked as accepting the absence of a value. A node that is already
/// so marked is left as it is.
pub open spec fn nullable(node: SchemaModel) -> SchemaModel {
    if node is Nullable {
        node
    } else {
        SchemaModel::Nullable { inner: Box::new(node) }
    }
}

/// The names of the properties that an object requires.
pub open spec fn required_names(properties: Seq<PropertyModel>) -> Set<Seq<char>> {
    Set::new(
        |name: Seq<char>|
            exists|i: int|
                0 <= i < properties.len() && (#[trigger] properties[i]).name == name
                    && properties[i].required,
    )
}

/// The names of `properties`, in order.
pub open spec fn property_names(properties: Seq<PropertyModel>) -> Seq<Seq<char>> {
    Seq::new(properties.len(), |i: int| properties[i].name)
}

/// The properties of an object schema, seen through a nullable mark; `None`
/// for every other node.
pub open spec fn object_properties(node: SchemaModel) -> Option<Seq<PropertyModel>> {
    match node {
        SchemaModel::Object { properties } => Some(properties),
        SchemaModel::Nullable { inner } => match *inner {
            SchemaModel::Object { properties } => Some(properties),
            _ => None,
        },
        _ => None,
    }
}

impl Clone for Property {
    fn clone(&self) -> (copy: Self)
        ensures
            copy@ == self@,
        decreases self,
    {
        Property { name: self.name.clone(), schema: self.schema.clone(), required: self.required }
    }
}

impl Clone for SchemaNode {
    fn clone(&self) -> (copy: Self)
        ensures
            copy@ == self@,
        decreases self,
    {
        match self {
            SchemaNode::Boolean => SchemaNode::Boolean,
            SchemaNode::Integer => SchemaNode::Integer,
            SchemaNode::Number => SchemaNode::Number,
            SchemaNode::String { format } => SchemaNode::String {
                format: match format {
                    Some(f) => Some(f.clone()),
                    None => None,
                },
            },
            SchemaNode::Array { items } => SchemaNode::Array {
                items: match items {
                    Some(inner) => Some(Box::new((&**inner).clone())),
                    None => None,
                },
            },
            SchemaNode::Object { properties } => {
                let mut copies: Vec<Property> = Vec::new();
                let mut i: usize = 0;
                while i < properties.len()
                    invariant
                        i <= properties.len(),
                        copies.len() == i,
                        forall|j: int| 0 <= j < i ==> copies@[j]@ == properties@[j]@,
                        forall|j: int|
                            0 <= j < properties.len() ==> decreases_to!(self => properties@[j]),
                    decreases properties.len() - i,
                {
                    copies.push(properties[i].clone());
                    i += 1;
                }
                let copy = SchemaNode::Object { properties: copies };
                assert(copy@ == self@) by {
                    assert(copy@->properties =~= self@->properties);
                }
                copy
            },
            SchemaNode::Mapping { value } => SchemaNode::Mapping {
                value: match value {
                    Some(inner) => Some(Box::new((&**inner).clone())),
                    None => None,
                },
            },
            SchemaNode::Nullable { inner } => SchemaNode::Nullable {
                inner: Box::new((&**inner).clone()),
            },
            SchemaNode::Reference { name } => SchemaNode::Reference { name: name.clone() },
        }
    }
}

impl SchemaNode {
    /// Marks this node as nullable.
    pub fn into_nullable(self) -> (marked: SchemaNode)
        ensures
            marked@ == nullable(self@),
    {
        match self {
            SchemaNode::Nullable { inner } => SchemaNode::Nullable { inner },
            other => SchemaNode::Nullable { inner: Box::new(other) },
        }
    }
}

} // verus!
