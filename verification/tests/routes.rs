use oasgen::{
    dump_requested, ConfigError, Document, Format, Method, OaSchema, OperationDescriptor,
    ParameterDescriptor, ParameterLocation, PathArgument, PathItem, ReferenceRegistry,
    ResponseDescriptor, SchemaNode, Server, Signature, SpecRoute, StatusClass, TypeCatalog,
    TypeDesc,
};

fn boxed(ty: TypeDesc) -> Box<TypeDesc> {
    Box::new(ty)
}

fn names(registry: &ReferenceRegistry) -> Vec<String> {
    (0..registry.len()).map(|i| registry.name_at(i).clone()).collect()
}

fn paths(document: &Document) -> Vec<String> {
    (0..document.path_count()).map(|i| document.path_at(i).clone()).collect()
}

fn methods(item: &PathItem) -> Vec<Method> {
    let all = [
        Method::Get,
        Method::Post,
        Method::Put,
        Method::Delete,
        Method::Options,
        Method::Head,
        Method::Patch,
        Method::Trace,
    ];
    all.into_iter().filter(|m| item.operation(*m).is_some()).collect()
}

fn reference(name: &str) -> SchemaNode {
    SchemaNode::Reference { name: name.to_string() }
}

/// `SendCode { mobile: string }` at 0, `SendCodeResponse { foundAccount: bool }`
/// at 1, `Item { foo: string }` at 2.
fn catalog() -> TypeCatalog {
    let mut catalog = TypeCatalog::new();
    let request = catalog.declare("SendCode");
    let response = catalog.declare("SendCodeResponse");
    let item = catalog.declare("Item");
    catalog.add_field(request, "mobile", TypeDesc::Text, true);
    catalog.add_field(response, "foundAccount", TypeDesc::Bool, true);
    catalog.add_field(item, "foo", TypeDesc::Text, true);
    catalog
}

fn operation(catalog: &TypeCatalog, arguments: Vec<TypeDesc>, output: TypeDesc) -> OperationDescriptor {
    OperationDescriptor::build(catalog, &Signature { arguments, output })
}

fn plain(catalog: &TypeCatalog) -> OperationDescriptor {
    operation(catalog, vec![], TypeDesc::Unit)
}

#[test]
fn hello_scenario() {
    let catalog = catalog();
    let op = operation(
        &catalog,
        vec![TypeDesc::Query(boxed(TypeDesc::Named(0)))],
        TypeDesc::Named(1),
    );
    let server = Server::new().get("/hello", op).freeze();
    let document = server.document();
    assert_eq!(paths(document), ["/hello"]);
    let item = document.item("/hello").unwrap();
    assert_eq!(methods(item), [Method::Get]);
    let get = item.operation(Method::Get).unwrap();
    assert_eq!(
        get.parameters,
        vec![ParameterDescriptor {
            name: "mobile".to_string(),
            location: ParameterLocation::Query,
            required: true,
            schema: SchemaNode::String { format: None },
        }]
    );
    assert_eq!(get.request_body, None);
    assert_eq!(
        get.responses,
        vec![ResponseDescriptor {
            status: StatusClass::Success,
            schema: Some(reference("SendCodeResponse")),
        }]
    );
    assert_eq!(get.operation_id, None);
    assert_eq!(names(document.components()), ["SendCodeResponse"]);
    assert!(!document.components().contains("SendCode"));
}

#[test]
fn nested_containers_register_one_component() {
    let catalog = catalog();
    let body = TypeDesc::Body(boxed(TypeDesc::Array(boxed(TypeDesc::Dictionary(boxed(
        TypeDesc::Named(2),
    ))))));
    let op = operation(&catalog, vec![body], TypeDesc::Unit);
    assert_eq!(
        op.request_body,
        Some(SchemaNode::Array {
            items: Some(Box::new(SchemaNode::Mapping {
                value: Some(Box::new(reference("Item"))),
            })),
        })
    );
    assert_eq!(op.responses, vec![ResponseDescriptor { status: StatusClass::Success, schema: None }]);
    let server = Server::new().post("/vec_of_map", op);
    assert_eq!(names(server.openapi.components()), ["Item"]);
}

#[test]
fn optional_argument_and_output_reach_what_the_plain_types_reach() {
    let catalog = catalog();
    let plain = operation(&catalog, vec![TypeDesc::Named(0)], TypeDesc::Named(1));
    let optional = operation(
        &catalog,
        vec![TypeDesc::Optional(boxed(TypeDesc::Named(0)))],
        TypeDesc::Optional(boxed(TypeDesc::Named(1))),
    );
    assert_eq!(names(&optional.references), names(&plain.references));
    assert_eq!(names(&plain.references), ["SendCode", "SendCodeResponse"]);
    for i in 0..plain.references.len() {
        assert_eq!(
            optional.references.node_at(i),
            &plain.references.node_at(i).clone().into_nullable()
        );
    }
    assert_eq!(optional.request_body, plain.request_body);
    assert_eq!(optional.responses, plain.responses);
}

#[test]
fn both_spellings_of_a_path_parameter_share_one_entry() {
    let catalog = catalog();
    let server = Server::new()
        .get("/users/:id", plain(&catalog))
        .post("/users/{id}", plain(&catalog));
    assert_eq!(paths(&server.openapi), ["/users/{id}"]);
    let item = server.openapi.item("/users/{id}").unwrap();
    assert_eq!(methods(item), [Method::Get, Method::Post]);
    assert!(server.openapi.item("/users/:id").is_none());
}

#[test]
fn second_registration_replaces_the_first() {
    let catalog = catalog();
    let first = operation(&catalog, vec![], TypeDesc::Named(1));
    let second = operation(&catalog, vec![TypeDesc::Named(2)], TypeDesc::Text);
    let server = Server::new().get("/a", plain(&catalog)).put("/b/:x", first);
    assert_eq!(server.openapi.path_count(), 2);
    let server = server.put("/b/:x", second);
    assert_eq!(paths(&server.openapi), ["/a", "/b/{x}"]);
    let item = server.openapi.item("/b/{x}").unwrap();
    assert_eq!(methods(item), [Method::Put]);
    let put = item.operation(Method::Put).unwrap();
    assert_eq!(put.request_body, Some(reference("Item")));
    assert_eq!(
        put.responses,
        vec![ResponseDescriptor {
            status: StatusClass::Success,
            schema: Some(SchemaNode::String { format: None }),
        }]
    );
    assert_eq!(names(server.openapi.components()), ["SendCodeResponse", "Item"]);
}

#[test]
fn every_method_has_its_own_slot() {
    let catalog = catalog();
    let server = Server::new()
        .get("/x", plain(&catalog))
        .post("/x", plain(&catalog))
        .put("/x", plain(&catalog))
        .delete("/x", plain(&catalog))
        .options("/x", plain(&catalog))
        .head("/x", plain(&catalog))
        .patch("/x", plain(&catalog))
        .trace("/x", plain(&catalog));
    assert_eq!(server.openapi.path_count(), 1);
    let item = server.openapi.item_at(0);
    assert_eq!(methods(item).len(), 8);
    let mut other = Server::new();
    other.add_handler_to_spec("/y", Method::Delete, plain(&catalog));
    assert_eq!(methods(other.openapi.item("/y").unwrap()), [Method::Delete]);
}

#[test]
fn paths_keep_the_order_of_their_first_registration() {
    let catalog = catalog();
    let server = Server::new()
        .get("/b", plain(&catalog))
        .get("/a", plain(&catalog))
        .post("/b", plain(&catalog))
        .get("/c/:id", plain(&catalog));
    assert_eq!(paths(&server.openapi), ["/b", "/a", "/c/{id}"]);
}

#[test]
fn components_keep_the_first_schema_under_a_name() {
    let mut catalog = TypeCatalog::new();
    let first = catalog.declare("Twin");
    let second = catalog.declare("Twin");
    catalog.add_field(first, "a", TypeDesc::Bool, true);
    catalog.add_field(second, "b", TypeDesc::Integer, true);
    let server = Server::new()
        .get("/one", operation(&catalog, vec![], TypeDesc::Named(first)))
        .get("/two", operation(&catalog, vec![], TypeDesc::Named(second)));
    assert_eq!(names(server.openapi.components()), ["Twin"]);
    assert_eq!(
        server.openapi.components().get("Twin"),
        TypeDesc::Named(first).schema(&catalog).as_ref()
    );
}

#[test]
fn operation_collects_parameters_body_and_references_in_argument_order() {
    let catalog = catalog();
    let op = operation(
        &catalog,
        vec![
            TypeDesc::Unit,
            TypeDesc::Path(vec![PathArgument { name: "id".to_string(), ty: TypeDesc::Integer }]),
            TypeDesc::Body(boxed(TypeDesc::Named(2))),
            TypeDesc::Query(boxed(TypeDesc::Named(0))),
            TypeDesc::Body(boxed(TypeDesc::Named(0))),
        ],
        TypeDesc::Fallible(boxed(TypeDesc::Body(boxed(TypeDesc::Named(1))))),
    );
    let listed: Vec<(&str, ParameterLocation)> =
        op.parameters.iter().map(|p| (p.name.as_str(), p.location)).collect();
    assert_eq!(listed, [("id", ParameterLocation::Path), ("mobile", ParameterLocation::Query)]);
    assert_eq!(op.request_body, Some(reference("Item")));
    assert_eq!(
        op.responses,
        vec![ResponseDescriptor {
            status: StatusClass::Success,
            schema: Some(reference("SendCodeResponse")),
        }]
    );
    assert_eq!(names(&op.references), ["Item", "SendCode", "SendCodeResponse"]);
    let op = op.with_operation_id("getHello");
    assert_eq!(op.operation_id, Some("getHello".to_string()));
    assert_eq!(op.request_body, Some(reference("Item")));
}

#[test]
fn method_names_are_parsed() {
    let all = [
        ("GET", Method::Get),
        ("POST", Method::Post),
        ("PUT", Method::Put),
        ("DELETE", Method::Delete),
        ("OPTIONS", Method::Options),
        ("HEAD", Method::Head),
        ("PATCH", Method::Patch),
        ("TRACE", Method::Trace),
    ];
    for (name, method) in all {
        assert_eq!(Method::parse(name), Ok(method));
        assert_eq!(method.as_str(), name);
    }
}

#[test]
fn unsupported_method_is_a_configuration_error() {
    assert_eq!(Method::parse("CONNECT"), Err(ConfigError::UnsupportedMethod));
    assert_eq!(Method::parse("get"), Err(ConfigError::UnsupportedMethod));
    assert_eq!(Method::parse(""), Err(ConfigError::UnsupportedMethod));
    assert_eq!(Method::parse("GETS"), Err(ConfigError::UnsupportedMethod));
}

#[test]
fn ui_route_needs_a_trailing_slash() {
    let server = Server::new().route_json_spec("/openapi.json");
    assert_eq!(server.check_swagger_ui("/docs"), Err(ConfigError::UiRouteWithoutTrailingSlash));
    assert_eq!(server.check_swagger_ui(""), Err(ConfigError::UiRouteWithoutTrailingSlash));
    assert_eq!(Server::new().check_swagger_ui("/docs"), Err(ConfigError::UiRouteWithoutTrailingSlash));
    assert_eq!(server.check_swagger_ui("/docs/"), Ok(()));
}

#[test]
fn ui_route_needs_a_spec_route() {
    assert_eq!(Server::new().check_swagger_ui("/docs/"), Err(ConfigError::UiRouteWithoutSpecRoute));
    assert_eq!(Server::new().route_yaml_spec("/openapi.yaml").check_swagger_ui("/docs/"), Ok(()));
}

#[test]
fn ui_loads_the_json_route_before_the_yaml_route() {
    let server = Server::new()
        .route_yaml_spec("/openapi.yaml")
        .route_json_spec("/openapi.json")
        .swagger_ui("/docs/");
    assert_eq!(server.swagger_ui_route, Some("/docs/".to_string()));
    let ui = server.swagger_ui.as_ref().unwrap();
    assert_eq!(ui.prefix, "/docs");
    assert_eq!(ui.url, "/openapi.json");
    let server = Server::new().route_yaml_spec("/openapi.yaml").swagger_ui("/");
    let ui = server.swagger_ui.as_ref().unwrap();
    assert_eq!(ui.prefix, "");
    assert_eq!(ui.url, "/openapi.yaml");
}

#[test]
fn configuration_is_kept_through_freeze_and_clone() {
    let catalog = catalog();
    let server = Server::new()
        .prefix("/api")
        .route_json_spec("/openapi.json")
        .route_yaml_spec("/openapi.yaml")
        .get("/hello", plain(&catalog));
    assert_eq!(server.scope(), "/api");
    assert_eq!(Server::new().scope(), "");
    let frozen = server.freeze();
    let copy = frozen.clone();
    assert_eq!(copy.prefix, Some("/api".to_string()));
    assert_eq!(copy.json_route, Some("/openapi.json".to_string()));
    assert_eq!(copy.yaml_route, Some("/openapi.yaml".to_string()));
    assert_eq!(copy.swagger_ui_route, None);
    assert!(copy.swagger_ui.is_none());
    assert_eq!(paths(copy.document()), ["/hello"]);
    assert!(std::sync::Arc::ptr_eq(&copy.openapi, &frozen.openapi));
    assert_eq!(copy.scope(), "/api");
}

#[test]
fn inspect_sees_the_document() {
    let catalog = catalog();
    let seen = std::cell::Cell::new(0);
    let server = Server::new()
        .get("/hello", plain(&catalog))
        .inspect(|document: &Document| seen.set(document.path_count()));
    assert_eq!(seen.get(), 1);
    assert_eq!(server.openapi.path_count(), 1);
}

#[test]
fn format_follows_the_extension() {
    assert_eq!(Format::from_extension(Some("json")), Format::Json);
    assert_eq!(Format::from_extension(Some("yaml")), Format::Yaml);
    assert_eq!(Format::from_extension(Some("JSON")), Format::Yaml);
    assert_eq!(Format::from_extension(Some("")), Format::Yaml);
    assert_eq!(Format::from_extension(None), Format::Yaml);
    assert_eq!(Format::Json.content_type(), "application/json");
    assert_eq!(Format::Yaml.content_type(), "text/yaml");
}

#[test]
fn dump_is_requested_by_the_value_one() {
    assert!(dump_requested(Some("1")));
    assert!(!dump_requested(Some("0")));
    assert!(!dump_requested(Some("true")));
    assert!(!dump_requested(Some("")));
    assert!(!dump_requested(Some("11")));
    assert!(!dump_requested(None));
}

#[test]
fn empty_document_has_nothing() {
    let document = Document::new();
    assert_eq!(document.path_count(), 0);
    assert_eq!(document.components().len(), 0);
    assert!(document.item("/").is_none());
    assert_eq!(methods(&PathItem::new()), []);
}

#[test]
fn document_is_served_under_the_configured_routes() {
    assert_eq!(Server::new().spec_routes(), vec![]);
    let server = Server::new().route_yaml_spec("/openapi.yaml");
    assert_eq!(
        server.spec_routes(),
        vec![SpecRoute { path: "/openapi.yaml".to_string(), format: Format::Yaml }]
    );
    let server = server.route_json_spec("/openapi.json").freeze();
    assert_eq!(
        server.spec_routes(),
        vec![
            SpecRoute { path: "/openapi.json".to_string(), format: Format::Json },
            SpecRoute { path: "/openapi.yaml".to_string(), format: Format::Yaml },
        ]
    );
}
