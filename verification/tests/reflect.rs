use oasgen::{
    OaSchema, ParameterDescriptor, ParameterLocation, PathArgument, Property, SchemaNode,
    TypeCatalog, TypeDesc,
};

fn boxed(ty: TypeDesc) -> Box<TypeDesc> {
    Box::new(ty)
}

fn text() -> SchemaNode {
    SchemaNode::String { format: None }
}

fn reference(name: &str) -> SchemaNode {
    SchemaNode::Reference { name: name.to_string() }
}

/// A catalog with `Account { mobile: string, nickname?: string }` at 0.
fn account_catalog() -> TypeCatalog {
    let mut catalog = TypeCatalog::new();
    let account = catalog.declare("Account");
    catalog.add_field(account, "mobile", TypeDesc::Text, true);
    catalog.add_field(account, "nickname", TypeDesc::Optional(boxed(TypeDesc::Text)), false);
    catalog
}

fn account_schema() -> SchemaNode {
    SchemaNode::Object {
        properties: vec![
            Property { name: "mobile".to_string(), schema: text(), required: true },
            Property { name: "nickname".to_string(), schema: text(), required: false },
        ],
    }
}

#[test]
fn primitives_have_fixed_schemas_and_no_name() {
    let catalog = TypeCatalog::new();
    let cases = [
        (TypeDesc::Bool, SchemaNode::Boolean),
        (TypeDesc::Integer, SchemaNode::Integer),
        (TypeDesc::Number, SchemaNode::Number),
        (TypeDesc::Text, text()),
        (TypeDesc::Uuid, SchemaNode::String { format: Some("uuid".to_string()) }),
        (TypeDesc::Json, SchemaNode::Object { properties: vec![] }),
    ];
    for (ty, node) in cases {
        assert_eq!(ty.schema_name(&catalog), None);
        assert_eq!(ty.schema(&catalog).as_ref(), Some(&node));
        assert_eq!(ty.schema_ref(&catalog).as_ref(), Some(&node));
        assert_eq!(ty.parameters(&catalog), None);
    }
}

#[test]
fn unit_answers_with_absence() {
    let catalog = account_catalog();
    assert_eq!(TypeDesc::Unit.schema_name(&catalog), None);
    assert_eq!(TypeDesc::Unit.schema(&catalog), None);
    assert_eq!(TypeDesc::Unit.schema_ref(&catalog), None);
    assert_eq!(TypeDesc::Unit.parameters(&catalog), None);
}

#[test]
fn named_type_has_its_object_schema_and_is_referred_to_by_name() {
    let catalog = account_catalog();
    let ty = TypeDesc::Named(0);
    assert_eq!(ty.schema_name(&catalog), Some("Account".to_string()));
    assert_eq!(ty.schema(&catalog), Some(account_schema()));
    assert_eq!(ty.schema_ref(&catalog), Some(reference("Account")));
    assert_eq!(ty.parameters(&catalog), None);
}

#[test]
fn undeclared_position_answers_with_absence() {
    let catalog = account_catalog();
    let ty = TypeDesc::Named(1);
    assert_eq!(ty.schema_name(&catalog), None);
    assert_eq!(ty.schema(&catalog), None);
    assert_eq!(ty.schema_ref(&catalog), None);
    assert_eq!(
        TypeDesc::Array(boxed(TypeDesc::Named(7))).schema(&catalog),
        Some(SchemaNode::Array { items: None })
    );
}

#[test]
fn array_holds_the_reference_of_its_items() {
    let catalog = account_catalog();
    let ty = TypeDesc::Array(boxed(TypeDesc::Named(0)));
    let node = SchemaNode::Array { items: Some(Box::new(reference("Account"))) };
    assert_eq!(ty.schema_name(&catalog), None);
    assert_eq!(ty.schema(&catalog).as_ref(), Some(&node));
    assert_eq!(ty.schema_ref(&catalog).as_ref(), Some(&node));
}

#[test]
fn array_of_a_type_without_schema_has_empty_items() {
    let catalog = TypeCatalog::new();
    let ty = TypeDesc::Array(boxed(TypeDesc::Unit));
    assert_eq!(ty.schema(&catalog), Some(SchemaNode::Array { items: None }));
    assert_eq!(ty.schema_ref(&catalog), Some(SchemaNode::Array { items: None }));
}

#[test]
fn dictionary_holds_the_reference_of_its_values() {
    let catalog = account_catalog();
    let ty = TypeDesc::Dictionary(boxed(TypeDesc::Named(0)));
    let node = SchemaNode::Mapping { value: Some(Box::new(reference("Account"))) };
    assert_eq!(ty.schema_name(&catalog), None);
    assert_eq!(ty.schema(&catalog).as_ref(), Some(&node));
    assert_eq!(ty.schema_ref(&catalog).as_ref(), Some(&node));
    assert_eq!(
        TypeDesc::Dictionary(boxed(TypeDesc::Unit)).schema(&catalog),
        Some(SchemaNode::Mapping { value: None })
    );
}

#[test]
fn optional_marks_the_schema_nullable_and_keeps_name_and_reference() {
    let catalog = account_catalog();
    let ty = TypeDesc::Optional(boxed(TypeDesc::Named(0)));
    assert_eq!(ty.schema_name(&catalog), Some("Account".to_string()));
    assert_eq!(ty.schema_ref(&catalog), Some(reference("Account")));
    assert_eq!(
        ty.schema(&catalog),
        Some(SchemaNode::Nullable { inner: Box::new(account_schema()) })
    );
}

#[test]
fn optional_primitive_is_nullable_but_referred_to_plainly() {
    let catalog = TypeCatalog::new();
    let ty = TypeDesc::Optional(boxed(TypeDesc::Integer));
    assert_eq!(ty.schema_name(&catalog), None);
    assert_eq!(
        ty.schema(&catalog),
        Some(SchemaNode::Nullable { inner: Box::new(SchemaNode::Integer) })
    );
    assert_eq!(ty.schema_ref(&catalog), Some(SchemaNode::Integer));
}

#[test]
fn optional_twice_is_marked_once() {
    let catalog = TypeCatalog::new();
    let ty = TypeDesc::Optional(boxed(TypeDesc::Optional(boxed(TypeDesc::Bool))));
    assert_eq!(
        ty.schema(&catalog),
        Some(SchemaNode::Nullable { inner: Box::new(SchemaNode::Boolean) })
    );
}

#[test]
fn optional_of_a_type_without_schema_has_none() {
    let catalog = TypeCatalog::new();
    let ty = TypeDesc::Optional(boxed(TypeDesc::Unit));
    assert_eq!(ty.schema(&catalog), None);
    assert_eq!(ty.schema_ref(&catalog), None);
}

#[test]
fn fallible_forwards_to_its_success_type() {
    let catalog = account_catalog();
    let plain = TypeDesc::Named(0);
    let wrapped = TypeDesc::Fallible(boxed(TypeDesc::Named(0)));
    assert_eq!(wrapped.schema_name(&catalog), plain.schema_name(&catalog));
    assert_eq!(wrapped.schema(&catalog), plain.schema(&catalog));
    assert_eq!(wrapped.schema_ref(&catalog), plain.schema_ref(&catalog));
    let query = TypeDesc::Query(boxed(TypeDesc::Named(0)));
    let fallible_query = TypeDesc::Fallible(boxed(TypeDesc::Query(boxed(TypeDesc::Named(0)))));
    assert!(query.parameters(&catalog).is_some());
    assert_eq!(fallible_query.parameters(&catalog), query.parameters(&catalog));
}

#[test]
fn body_forwards_name_schema_and_reference() {
    let catalog = account_catalog();
    let plain = TypeDesc::Named(0);
    let wrapped = TypeDesc::Body(boxed(TypeDesc::Named(0)));
    assert_eq!(wrapped.schema_name(&catalog), plain.schema_name(&catalog));
    assert_eq!(wrapped.schema(&catalog), plain.schema(&catalog));
    assert_eq!(wrapped.schema_ref(&catalog), plain.schema_ref(&catalog));
    assert_eq!(wrapped.parameters(&catalog), None);
}

#[test]
fn query_decomposes_the_properties_of_its_object() {
    let catalog = account_catalog();
    let ty = TypeDesc::Query(boxed(TypeDesc::Named(0)));
    assert_eq!(ty.schema_name(&catalog), None);
    assert_eq!(ty.schema(&catalog), None);
    assert_eq!(ty.schema_ref(&catalog), None);
    assert_eq!(
        ty.parameters(&catalog),
        Some(vec![
            ParameterDescriptor {
                name: "mobile".to_string(),
                location: ParameterLocation::Query,
                required: true,
                schema: text(),
            },
            ParameterDescriptor {
                name: "nickname".to_string(),
                location: ParameterLocation::Query,
                required: false,
                schema: text(),
            },
        ])
    );
}

#[test]
fn header_decomposes_the_properties_of_its_object() {
    let catalog = account_catalog();
    let ty = TypeDesc::Header(boxed(TypeDesc::Optional(boxed(TypeDesc::Named(0)))));
    let list = ty.parameters(&catalog).unwrap();
    assert_eq!(list.len(), 2);
    assert!(list.iter().all(|p| p.location == ParameterLocation::Header));
    assert_eq!(list[0].name, "mobile");
    assert!(list[0].required);
    assert_eq!(list[1].name, "nickname");
    assert!(!list[1].required);
}

#[test]
fn query_around_a_type_without_object_schema_has_no_parameters() {
    let catalog = account_catalog();
    assert_eq!(TypeDesc::Query(boxed(TypeDesc::Text)).parameters(&catalog), None);
    assert_eq!(TypeDesc::Query(boxed(TypeDesc::Unit)).parameters(&catalog), None);
    assert_eq!(TypeDesc::Header(boxed(TypeDesc::Named(9))).parameters(&catalog), None);
    assert_eq!(TypeDesc::Query(boxed(TypeDesc::Json)).parameters(&catalog), Some(vec![]));
}

#[test]
fn path_gives_one_required_parameter_for_each_argument() {
    let catalog = account_catalog();
    let ty = TypeDesc::Path(vec![
        PathArgument { name: "id".to_string(), ty: TypeDesc::Integer },
        PathArgument { name: "marker".to_string(), ty: TypeDesc::Unit },
        PathArgument { name: "slug".to_string(), ty: TypeDesc::Text },
    ]);
    assert_eq!(ty.schema(&catalog), None);
    assert_eq!(
        ty.parameters(&catalog),
        Some(vec![
            ParameterDescriptor {
                name: "id".to_string(),
                location: ParameterLocation::Path,
                required: true,
                schema: SchemaNode::Integer,
            },
            ParameterDescriptor {
                name: "slug".to_string(),
                location: ParameterLocation::Path,
                required: true,
                schema: text(),
            },
        ])
    );
}

#[test]
fn field_without_schema_gives_no_property() {
    let mut catalog = TypeCatalog::new();
    let index = catalog.declare("Envelope");
    catalog.add_field(index, "context", TypeDesc::Unit, true);
    catalog.add_field(index, "count", TypeDesc::Integer, true);
    assert_eq!(
        TypeDesc::Named(index).schema(&catalog),
        Some(SchemaNode::Object {
            properties: vec![Property {
                name: "count".to_string(),
                schema: SchemaNode::Integer,
                required: true,
            }],
        })
    );
}

#[test]
fn field_is_added_once_under_a_name_and_only_to_a_declared_type() {
    let mut catalog = TypeCatalog::new();
    let index = catalog.declare("Pair");
    assert!(catalog.add_field(index, "left", TypeDesc::Integer, true));
    assert!(catalog.add_field(index, "right", TypeDesc::Integer, true));
    assert!(!catalog.add_field(index, "left", TypeDesc::Text, false));
    assert!(!catalog.add_field(index + 1, "other", TypeDesc::Text, false));
    assert_eq!(catalog.types[index].fields.len(), 2);
    assert_eq!(catalog.types[index].fields[0].ty, TypeDesc::Integer);
    assert_eq!(catalog.types[index].name, "Pair");
}

#[test]
fn self_referential_type_refers_to_itself_by_name() {
    let mut catalog = TypeCatalog::new();
    let node = catalog.declare("Node");
    catalog.add_field(node, "children", TypeDesc::Array(boxed(TypeDesc::Named(node))), true);
    assert_eq!(catalog.len(), 1);
    assert_eq!(
        TypeDesc::Named(node).schema(&catalog),
        Some(SchemaNode::Object {
            properties: vec![Property {
                name: "children".to_string(),
                schema: SchemaNode::Array { items: Some(Box::new(reference("Node"))) },
                required: true,
            }],
        })
    );
}

#[test]
fn schema_node_clone_is_equal() {
    let node = SchemaNode::Nullable { inner: Box::new(account_schema()) };
    assert_eq!(node.clone(), node);
    let marked = account_schema().into_nullable();
    assert_eq!(marked, node);
    assert_eq!(marked.clone().into_nullable(), node);
}
