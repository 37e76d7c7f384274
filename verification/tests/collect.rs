use oasgen::{
    collect, HasReferences, OaSchema, Property, ReferenceRegistry, SchemaNode, TypeCatalog,
    TypeDesc,
};

fn boxed(ty: TypeDesc) -> Box<TypeDesc> {
    Box::new(ty)
}

fn names(registry: &ReferenceRegistry) -> Vec<String> {
    (0..registry.len()).map(|i| registry.name_at(i).clone()).collect()
}

/// `Order { customer: Customer, lines: [Line] }`, `Customer { name }`,
/// `Line { item: Item }`, `Item { sku }`, and `Unused {}`.
fn shop() -> TypeCatalog {
    let mut catalog = TypeCatalog::new();
    let order = catalog.declare("Order");
    let customer = catalog.declare("Customer");
    let line = catalog.declare("Line");
    let item = catalog.declare("Item");
    catalog.declare("Unused");
    catalog.add_field(order, "customer", TypeDesc::Named(customer), true);
    catalog.add_field(order, "lines", TypeDesc::Array(boxed(TypeDesc::Named(line))), true);
    catalog.add_field(customer, "name", TypeDesc::Text, true);
    catalog.add_field(line, "item", TypeDesc::Named(item), true);
    catalog.add_field(item, "sku", TypeDesc::Text, true);
    catalog
}

#[test]
fn named_root_is_registered_under_its_name_with_its_schema() {
    let catalog = shop();
    for index in 0..catalog.len() {
        let root = TypeDesc::Named(index);
        let registry = collect(&catalog, &vec![TypeDesc::Named(index)]);
        let name = root.schema_name(&catalog).unwrap();
        assert_eq!(registry.name_at(0), &name);
        assert_eq!(registry.get(&name), root.schema(&catalog).as_ref());
    }
}

#[test]
fn acyclic_graph_registers_every_reachable_type_once() {
    let catalog = shop();
    let registry = collect(&catalog, &vec![TypeDesc::Named(0)]);
    assert_eq!(names(&registry), ["Order", "Customer", "Line", "Item"]);
    assert!(!registry.contains("Unused"));
    let registry = collect(&catalog, &vec![TypeDesc::Named(2)]);
    assert_eq!(names(&registry), ["Line", "Item"]);
}

#[test]
fn roots_come_first_in_the_order_given() {
    let catalog = shop();
    let registry = collect(&catalog, &vec![TypeDesc::Named(3), TypeDesc::Named(0)]);
    assert_eq!(names(&registry), ["Item", "Order", "Customer", "Line"]);
    let registry = collect(&catalog, &vec![TypeDesc::Named(0), TypeDesc::Named(0)]);
    assert_eq!(registry.len(), 4);
}

#[test]
fn self_referential_type_is_registered_once() {
    let mut catalog = TypeCatalog::new();
    let node = catalog.declare("Node");
    catalog.add_field(node, "next", TypeDesc::Optional(boxed(TypeDesc::Named(node))), false);
    catalog.add_field(node, "children", TypeDesc::Array(boxed(TypeDesc::Named(node))), true);
    let registry = collect(&catalog, &vec![TypeDesc::Named(node)]);
    assert_eq!(names(&registry), ["Node"]);
    assert_eq!(registry.node_at(0), &TypeDesc::Named(node).schema(&catalog).unwrap());
}

#[test]
fn mutually_referential_types_are_each_registered_once() {
    let mut catalog = TypeCatalog::new();
    let a = catalog.declare("Author");
    let b = catalog.declare("Book");
    let c = catalog.declare("Chapter");
    catalog.add_field(a, "books", TypeDesc::Array(boxed(TypeDesc::Named(b))), true);
    catalog.add_field(b, "author", TypeDesc::Named(a), true);
    catalog.add_field(b, "chapters", TypeDesc::Array(boxed(TypeDesc::Named(c))), true);
    catalog.add_field(c, "book", TypeDesc::Named(b), true);
    assert_eq!(names(&collect(&catalog, &vec![TypeDesc::Named(a)])), ["Author", "Book", "Chapter"]);
    assert_eq!(names(&collect(&catalog, &vec![TypeDesc::Named(c)])), ["Chapter", "Book", "Author"]);
}

#[test]
fn containers_are_looked_through() {
    let catalog = shop();
    let root = TypeDesc::Array(boxed(TypeDesc::Dictionary(boxed(TypeDesc::Named(3)))));
    let registry = collect(&catalog, &vec![root]);
    assert_eq!(names(&registry), ["Item"]);
}

#[test]
fn parameter_wrappers_and_primitives_reach_nothing() {
    let catalog = shop();
    let roots = vec![
        TypeDesc::Query(boxed(TypeDesc::Named(0))),
        TypeDesc::Header(boxed(TypeDesc::Named(0))),
        TypeDesc::Path(vec![]),
        TypeDesc::Text,
        TypeDesc::Unit,
        TypeDesc::Named(99),
    ];
    assert_eq!(collect(&catalog, &roots).len(), 0);
    assert_eq!(collect(&catalog, &vec![]).len(), 0);
}

#[test]
fn optional_root_reaches_what_its_inner_type_reaches() {
    let catalog = shop();
    let plain = collect(&catalog, &vec![TypeDesc::Named(0)]);
    let optional = collect(&catalog, &vec![TypeDesc::Optional(boxed(TypeDesc::Named(0)))]);
    assert_eq!(names(&optional), names(&plain));
    assert_eq!(
        optional.node_at(0),
        &SchemaNode::Nullable {
            inner: Box::new(TypeDesc::Named(0).schema(&catalog).unwrap()),
        }
    );
    for i in 1..plain.len() {
        assert_eq!(optional.node_at(i), plain.node_at(i));
    }
}

#[test]
fn first_type_under_a_name_wins() {
    let mut catalog = TypeCatalog::new();
    let first = catalog.declare("Twin");
    let second = catalog.declare("Twin");
    let hidden = catalog.declare("Hidden");
    catalog.add_field(first, "a", TypeDesc::Bool, true);
    catalog.add_field(second, "b", TypeDesc::Named(hidden), true);
    let registry = collect(&catalog, &vec![TypeDesc::Named(first), TypeDesc::Named(second)]);
    assert_eq!(names(&registry), ["Twin"]);
    assert_eq!(
        registry.get("Twin"),
        Some(&SchemaNode::Object {
            properties: vec![Property {
                name: "a".to_string(),
                schema: SchemaNode::Boolean,
                required: true,
            }],
        })
    );
}

#[test]
fn all_references_agrees_with_collect() {
    let catalog = shop();
    let single = TypeDesc::Named(2).all_references(&catalog);
    assert_eq!(names(&single), ["Line", "Item"]);
    let many = vec![TypeDesc::Named(1), TypeDesc::Named(2)].all_references(&catalog);
    assert_eq!(names(&many), ["Customer", "Line", "Item"]);
    assert_eq!(().all_references(&catalog).len(), 0);
}

#[test]
fn registry_keeps_the_first_node_under_a_name() {
    let mut registry = ReferenceRegistry::new();
    assert_eq!(registry.len(), 0);
    assert!(!registry.contains("A"));
    assert_eq!(registry.get("A"), None);
    assert!(registry.insert("A".to_string(), SchemaNode::Boolean));
    assert!(registry.insert("B".to_string(), SchemaNode::Integer));
    assert!(!registry.insert("A".to_string(), SchemaNode::Number));
    assert_eq!(registry.len(), 2);
    assert!(registry.contains("A"));
    assert!(registry.contains("B"));
    assert!(!registry.contains("C"));
    assert_eq!(registry.get("A"), Some(&SchemaNode::Boolean));
    assert_eq!(registry.get("B"), Some(&SchemaNode::Integer));
    assert_eq!(registry.name_at(0), "A");
    assert_eq!(registry.name_at(1), "B");
    assert_eq!(registry.node_at(1), &SchemaNode::Integer);
}

#[test]
fn registry_merge_adds_what_is_new_in_order() {
    let mut left = ReferenceRegistry::new();
    left.insert("A".to_string(), SchemaNode::Boolean);
    left.insert("B".to_string(), SchemaNode::Integer);
    let mut right = ReferenceRegistry::new();
    right.insert("C".to_string(), SchemaNode::Number);
    right.insert("A".to_string(), SchemaNode::Number);
    right.insert("D".to_string(), SchemaNode::Boolean);
    left.merge(&right);
    assert_eq!(names(&left), ["A", "B", "C", "D"]);
    assert_eq!(left.get("A"), Some(&SchemaNode::Boolean));
    assert_eq!(left.get("C"), Some(&SchemaNode::Number));
    let copy = left.clone();
    assert_eq!(names(&copy), names(&left));
    for i in 0..left.len() {
        assert_eq!(copy.node_at(i), left.node_at(i));
    }
}
