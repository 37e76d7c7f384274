use oasgen::{
    Document, Method, OperationDescriptor, Server, Signature, TypeCatalog, TypeDesc,
};
use serde_json::Value;
use std::collections::BTreeSet;

const METHODS: [Method; 8] = [
    Method::Get,
    Method::Post,
    Method::Put,
    Method::Delete,
    Method::Options,
    Method::Head,
    Method::Patch,
    Method::Trace,
];

fn sample() -> Document {
    let mut catalog = TypeCatalog::new();
    let user = catalog.declare("User");
    let group = catalog.declare("Group: \"admins\"");
    catalog.add_field(user, "name", TypeDesc::Text, true);
    catalog.add_field(user, "group", TypeDesc::Optional(Box::new(TypeDesc::Named(group))), false);
    catalog.add_field(group, "members", TypeDesc::Array(Box::new(TypeDesc::Named(user))), true);
    let build = |arguments: Vec<TypeDesc>, output: TypeDesc| {
        OperationDescriptor::build(&catalog, &Signature { arguments, output })
    };
    Server::new()
        .get("/users/:id", build(vec![], TypeDesc::Named(user)))
        .delete("/users/{id}", build(vec![], TypeDesc::Unit))
        .post("/users", build(vec![TypeDesc::Body(Box::new(TypeDesc::Named(user)))], TypeDesc::Unit))
        .get("/", build(vec![], TypeDesc::Text))
        .patch("/gr\u{fc}ppen/:group_id/x y", build(vec![], TypeDesc::Named(group)))
        .openapi
}

/// The paths with their methods, and the component names, as a JSON value.
fn outline(document: &Document) -> Value {
    let mut paths = serde_json::Map::new();
    for i in 0..document.path_count() {
        let mut item = serde_json::Map::new();
        for method in METHODS {
            if document.item_at(i).operation(method).is_some() {
                item.insert(method.as_str().to_lowercase(), Value::Object(serde_json::Map::new()));
            }
        }
        paths.insert(document.path_at(i).clone(), Value::Object(item));
    }
    let mut schemas = serde_json::Map::new();
    for i in 0..document.components().len() {
        schemas.insert(document.components().name_at(i).clone(), Value::Object(serde_json::Map::new()));
    }
    let mut components = serde_json::Map::new();
    components.insert("schemas".to_string(), Value::Object(schemas));
    let mut root = serde_json::Map::new();
    root.insert("paths".to_string(), Value::Object(paths));
    root.insert("components".to_string(), Value::Object(components));
    Value::Object(root)
}

fn keys(value: &Value) -> BTreeSet<String> {
    value.as_object().unwrap().keys().cloned().collect()
}

fn check_against(document: &Document, parsed: &Value) {
    let expected_paths: BTreeSet<String> =
        (0..document.path_count()).map(|i| document.path_at(i).clone()).collect();
    assert_eq!(keys(&parsed["paths"]), expected_paths);
    for i in 0..document.path_count() {
        let expected: BTreeSet<String> = METHODS
            .into_iter()
            .filter(|m| document.item_at(i).operation(*m).is_some())
            .map(|m| m.as_str().to_lowercase())
            .collect();
        assert_eq!(keys(&parsed["paths"][document.path_at(i).as_str()]), expected);
    }
    let expected_names: BTreeSet<String> = (0..document.components().len())
        .map(|i| document.components().name_at(i).clone())
        .collect();
    assert_eq!(keys(&parsed["components"]["schemas"]), expected_names);
}

#[test]
fn json_text_gives_back_paths_methods_and_component_names() {
    let document = sample();
    let text = serde_json::to_string(&outline(&document)).unwrap();
    let parsed: Value = serde_json::from_str(&text).unwrap();
    check_against(&document, &parsed);
    assert_eq!(keys(&parsed["paths"]).len(), 4);
    assert_eq!(keys(&parsed["components"]["schemas"]).len(), 2);
}

#[test]
fn yaml_text_gives_back_what_json_text_gives_back() {
    let document = sample();
    let value = outline(&document);
    let json: Value = serde_json::from_str(&serde_json::to_string(&value).unwrap()).unwrap();
    let yaml: Value = serde_yaml::from_str(&serde_yaml::to_string(&value).unwrap()).unwrap();
    check_against(&document, &yaml);
    assert_eq!(yaml, json);
}
