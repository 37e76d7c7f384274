//! The server under construction: the document that registrations build up,
//! and where the finished document is to be served.

use crate::document::{registration, Document, DocumentModel, Method};
use crate::operation::OperationDescriptor;
use crate::schema::text_model;
use crate::text::{chars_of, ends_with, same_text};
use std::sync::Arc;
use vstd::prelude::*;
use vstd::string::StrSliceExecFns;

verus! {

/// A mistake in the set-up of the routes. It ends the build.
#[derive(Clone, Copy, Debug, PartialEq, Eq, Structural)]
pub enum ConfigError {
    /// The method is none of those that a document can describe.
    UnsupportedMethod,
    /// The route of the documentation UI does not end with `/`.
    UiRouteWithoutTrailingSlash,
    /// A route for the documentation UI was asked for before a route that
    /// serves the document.
    UiRouteWithoutSpecRoute,
}

/// The format in which a document is rendered.
#[derive(Clone, Copy, Debug, PartialEq, Eq, Structural)]
pub enum Format {
    Json,
    Yaml,
}

/// A route that serves the document, and the format in which it does.
#[derive(Debug, PartialEq, Eq)]
pub struct SpecRoute {
    pub path: String,
    pub format: Format,
}

/// What a [`SpecRoute`] stands for.
pub struct SpecRouteModel {
    pub path: Seq<char>,
    pub format: Format,
}

impl View for SpecRoute {
    type V = SpecRouteModel;

    open spec fn view(&self) -> SpecRouteModel {
        SpecRouteModel { path: self.path@, format: self.format }
    }
}

/// The routes that serve the document: the JSON route where one is
/// configured, then the YAML route where one is.
pub open spec fn spec_routes_of(server: ServerModel) -> Seq<SpecRouteModel> {
    let json = match server.json_route {
        Some(path) => seq![SpecRouteModel { path, format: Format::Json }],
        None => Seq::empty(),
    };
    let yaml = match server.yaml_route {
        Some(path) => seq![SpecRouteModel { path, format: Format::Yaml }],
        None => Seq::empty(),
    };
    json + yaml
}

/// Where the documentation UI is mounted, and the route of the document
/// that it loads.
pub struct SwaggerUi {
    pub prefix: String,
    pub url: String,
}

/// What a [`SwaggerUi`] stands for.
pub struct SwaggerUiModel {
    pub prefix: Seq<char>,
    pub url: Seq<char>,
}

impl View for SwaggerUi {
    type V = SwaggerUiModel;

    open spec fn view(&self) -> SwaggerUiModel {
        SwaggerUiModel { prefix: self.prefix@, url: self.url@ }
    }
}

/// A server: its document, and the configuration of the routes under which
/// the document is served. `Mutability` is [`Document`] while handlers are
/// registered, and a shared handle to the document once it is frozen.
pub struct Server<Mutability = Document> {
    pub openapi: Mutability,
    /// The path under which all routes are mounted.
    pub prefix: Option<String>,
    /// The route that serves the document as JSON.
    pub json_route: Option<String>,
    /// The route that serves the document as YAML.
    pub yaml_route: Option<String>,
    /// The route that serves the documentation UI.
    pub swagger_ui_route: Option<String>,
    /// The configuration of the documentation UI.
    pub swagger_ui: Option<SwaggerUi>,
}

/// What a [`Server`] stands for.
pub struct ServerModel {
    pub openapi: DocumentModel,
    pub prefix: Option<Seq<char>>,
    pub json_route: Option<Seq<char>>,
    pub yaml_route: Option<Seq<char>>,
    pub swagger_ui_route: Option<Seq<char>>,
    pub swagger_ui: Option<SwaggerUiModel>,
}

impl<Mutability: View<V = DocumentModel>> View for Server<Mutability> {
    type V = ServerModel;

    open spec fn view(&self) -> ServerModel {
        ServerModel {
            openapi: self.openapi@,
            prefix: text_model(self.prefix),
            json_route: text_model(self.json_route),
            yaml_route: text_model(self.yaml_route),
            swagger_ui_route: text_model(self.swagger_ui_route),
            swagger_ui: match self.swagger_ui {
                Some(ui) => Some(ui@),
                None => None,
            },
        }
    }
}

impl Server<Document> {
    /// A server without routes and without configuration.
    pub fn new() -> (server: Self)
        ensures
            server@.openapi.paths.len() == 0,
            server@.openapi.components.len() == 0,
            server@.prefix is None,
            server@.json_route is None,
            server@.yaml_route is None,
            server@.swagger_ui_route is None,
            server@.swagger_ui is None,
    {
        Server {
            openapi: Document::new(),
            prefix: None,
            json_route: None,
            yaml_route: None,
            swagger_ui_route: None,
            swagger_ui: None,
        }
    }

    /// Adds the operation of a handler to the document.
    pub fn add_handler_to_spec(&mut self, path: &str, method: Method, operation: OperationDescriptor)
        ensures
            final(self)@ == (ServerModel {
                openapi: registration(old(self)@.openapi, path@, method, operation@),
                ..old(self)@
            }),
    {
        self.openapi.register(path, method, operation);
    }

    /// Registers `operation` for GET at `path`.
    pub fn get(self, path: &str, operation: OperationDescriptor) -> (server: Self)
        ensures
            server@ == (ServerModel {
                openapi: registration(self@.openapi, path@, Method::Get, operation@),
                ..self@
            }),
    {
        let mut server = self;
        server.add_handler_to_spec(path, Method::Get, operation);
        server
    }

    /// Registers `operation` for POST at `path`.
    pub fn post(self, path: &str, operation: OperationDescriptor) -> (server: Self)
        ensures
            server@ == (ServerModel {
                openapi: registration(self@.openapi, path@, Method::Post, operation@),
                ..self@
            }),
    {
        let mut server = self;
        server.add_handler_to_spec(path, Method::Post, operation);
        server
    }

    /// Registers `operation` for PUT at `path`.
    pub fn put(self, path: &str, operation: OperationDescriptor) -> (server: Self)
        ensures
            server@ == (ServerModel {
                openapi: registration(self@.openapi, path@, Method::Put, operation@),
                ..self@
            }),
    {
        let mut server = self;
        server.add_handler_to_spec(path, Method::Put, operation);
        server
    }

    /// Registers `operation` for DELETE at `path`.
    pub fn delete(self, path: &str, operation: OperationDescriptor) -> (server: Self)
        ensures
            server@ == (ServerModel {
                openapi: registration(self@.openapi, path@, Method::Delete, operation@),
                ..self@
            }),
    {
        let mut server = self;
        server.add_handler_to_spec(path, Method::Delete, operation);
        server
    }

    /// Registers `operation` for HEAD at `path`.
    pub fn head(self, path: &str, operation: OperationDescriptor) -> (server: Self)
        ensures
            server@ == (ServerModel {
                openapi: registration(self@.openapi, path@, Method::Head, operation@),
                ..self@
            }),
    {
        let mut server = self;
        server.add_handler_to_spec(path, Method::Head, operation);
        server
    }

    /// Registers `operation` for OPTIONS at `path`.
    pub fn options(self, path: &str, operation: OperationDescriptor) -> (server: Self)
        ensures
            server@ == (ServerModel {
                openapi: registration(self@.openapi, path@, Method::Options, operation@),
                ..self@
            }),
    {
        let mut server = self;
        server.add_handler_to_spec(path, Method::Options, operation);
        server
    }

    /// Registers `operation` for TRACE at `path`.
    pub fn trace(self, path: &str, operation: OperationDescriptor) -> (server: Self)
        ensures
            server@ == (ServerModel {
                openapi: registration(self@.openapi, path@, Method::Trace, operation@),
                ..self@
            }),
    {
        let mut server = self;
        server.add_handler_to_spec(path, Method::Trace, operation);
        server
    }

    /// Registers `operation` for PATCH at `path`.
    pub fn patch(self, path: &str, operation: OperationDescriptor) -> (server: Self)
        ensures
            server@ == (ServerModel {
                openapi: registration(self@.openapi, path@, Method::Patch, operation@),
                ..self@
            }),
    {
        let mut server = self;
        server.add_handler_to_spec(path, Method::Patch, operation);
        server
    }

    /// Asks for a route that serves the document as JSON.
    pub fn route_json_spec(self, path: &str) -> (server: Self)
        ensures
            server@ == (ServerModel { json_route: Some(path@), ..self@ }),
    {
        let mut server = self;
        server.json_route = Some(path.to_owned());
        server
    }

    /// Asks for a route that serves the document as YAML.
    pub fn route_yaml_spec(self, path: &str) -> (server: Self)
        ensures
            server@ == (ServerModel { yaml_route: Some(path@), ..self@ }),
    {
        let mut server = self;
        server.yaml_route = Some(path.to_owned());
        server
    }

    /// Mounts all routes, those that serve the document too, under `prefix`.
    pub fn prefix(self, prefix: &str) -> (server: Self)
        ensures
            server@ == (ServerModel { prefix: Some(prefix@), ..self@ }),
    {
        let mut server = self;
        server.prefix = Some(prefix.to_owned());
        server
    }

    /// Says whether the documentation UI can be served at `route`: the route
    /// has to end with `/`, since the UI's resources are found below it, and a
    /// route that serves the document has to be configured already.
    pub fn check_swagger_ui(&self, route: &str) -> (outcome: Result<(), ConfigError>)
        ensures
            outcome is Ok <==> ui_route_accepted(self@, route@),
            outcome == Err::<(), ConfigError>(ConfigError::UiRouteWithoutTrailingSlash) <==> !ends_with(
                route@,
                '/',
            ),
            outcome == Err::<(), ConfigError>(ConfigError::UiRouteWithoutSpecRoute) <==> ends_with(
                route@,
                '/',
            ) && self@.json_route is None && self@.yaml_route is None,
    {
        let chars = chars_of(route);
        if chars.len() == 0 || chars[chars.len() - 1] != '/' {
            return Err(ConfigError::UiRouteWithoutTrailingSlash);
        }
        if self.json_route.is_none() && self.yaml_route.is_none() {
            return Err(ConfigError::UiRouteWithoutSpecRoute);
        }
        Ok(())
    }

    /// Serves the documentation UI at `route`. The UI is mounted at the route
    /// without its trailing `/`, and loads the document from the JSON route,
    /// or from the YAML route where there is no JSON route.
    pub fn swagger_ui(self, route: &str) -> (server: Self)
        requires
            ui_route_accepted(self@, route@),
        ensures
            server@ == (ServerModel {
                swagger_ui_route: Some(route@),
                swagger_ui: Some(
                    SwaggerUiModel { prefix: route@.drop_last(), url: spec_route(self@)->0 },
                ),
                ..self@
            }),
    {
        let chars = chars_of(route);
        let mounted = route.substring_char(0, chars.len() - 1);
        let url = match &self.json_route {
            Some(json) => json.clone(),
            None => match &self.yaml_route {
                Some(yaml) => yaml.clone(),
                None => vstd::pervasive::unreached(),
            },
        };
        assert(mounted@ =~= route@.drop_last());
        let mut server = self;
        server.swagger_ui_route = Some(route.to_owned());
        server.swagger_ui = Some(SwaggerUi { prefix: mounted.to_owned(), url });
        server
    }

    /// Calls `closure` on the document, and hands the server back as it
    /// was: what the closure promises of a call on the document holds
    /// afterwards.
    pub fn inspect<F: Fn(&Document)>(self, closure: F) -> (server: Self)
        requires
            closure.requires((&self.openapi,)),
        ensures
            server == self,
            closure.ensures((&self.openapi,), ()),
    {
        closure(&self.openapi);
        self
    }

    /// Ends the build: the document can be shared from here on, and takes no
    /// further registration.
    pub fn freeze(self) -> (server: Server<Arc<Document>>)
        ensures
            server@ == self@,
    {
        Server {
            openapi: Arc::new(self.openapi),
            prefix: self.prefix,
            json_route: self.json_route,
            yaml_route: self.yaml_route,
            swagger_ui_route: self.swagger_ui_route,
            swagger_ui: self.swagger_ui,
        }
    }
}

/// The model of an optional string slice.
pub open spec fn text_model_of(text: Option<&str>) -> Option<Seq<char>> {
    match text {
        Some(t) => Some(t@),
        None => None,
    }
}

/// The route from which the documentation UI loads the document: the JSON
/// route, or the YAML route where there is no JSON route.
pub open spec fn spec_route(server: ServerModel) -> Option<Seq<char>> {
    match server.json_route {
        Some(route) => Some(route),
        None => server.yaml_route,
    }
}

/// Whether the documentation UI can be served at `route`.
pub open spec fn ui_route_accepted(server: ServerModel, route: Seq<char>) -> bool {
    ends_with(route, '/') && spec_route(server) is Some
}

/// `Arc::clone`: another handle to the same document.
#[verifier::external_body]
fn share(document: &Arc<Document>) -> (handle: Arc<Document>)
    ensures
        handle == *document,
{
    Arc::clone(document)
}

/// A copy of an optional string.
fn copy_text(text: &Option<String>) -> (copy: Option<String>)
    ensures
        copy == *text,
{
    match text {
        Some(t) => Some(t.clone()),
        None => None,
    }
}

impl Clone for SwaggerUi {
    fn clone(&self) -> (copy: Self)
        ensures
            copy == *self,
    {
        SwaggerUi { prefix: self.prefix.clone(), url: self.url.clone() }
    }
}

impl Clone for Server<Arc<Document>> {
    /// Another handle to the same document, under the same configuration.
    fn clone(&self) -> (copy: Self)
        ensures
            copy == *self,
    {
        Server {
            openapi: share(&self.openapi),
            prefix: copy_text(&self.prefix),
            json_route: copy_text(&self.json_route),
            yaml_route: copy_text(&self.yaml_route),
            swagger_ui_route: copy_text(&self.swagger_ui_route),
            swagger_ui: match &self.swagger_ui {
                Some(ui) => Some(ui.clone()),
                None => None,
            },
        }
    }
}

impl Server<Arc<Document>> {
    /// The finished document.
    pub fn document(&self) -> (document: &Document)
        ensures
            document@ == self@.openapi,
    {
        &self.openapi
    }
}

impl<Mutability: View<V = DocumentModel>> Server<Mutability> {
    /// The routes under which the document is to be served, each with its
    /// format.
    pub fn spec_routes(&self) -> (routes: Vec<SpecRoute>)
        ensures
            Seq::new(routes@.len(), |i: int| routes@[i]@) == spec_routes_of(self@),
    {
        let mut routes: Vec<SpecRoute> = Vec::new();
        match &self.json_route {
            Some(path) => routes.push(SpecRoute { path: path.clone(), format: Format::Json }),
            None => {},
        }
        match &self.yaml_route {
            Some(path) => routes.push(SpecRoute { path: path.clone(), format: Format::Yaml }),
            None => {},
        }
        assert(Seq::new(routes@.len(), |i: int| routes@[i]@) =~= spec_routes_of(self@));
        routes
    }

    /// The path under which the routes are mounted: the prefix, or the empty
    /// path where none is configured.
    pub fn scope(&self) -> (scope: String)
        ensures
            scope@ == match self@.prefix {
                Some(prefix) => prefix,
                None => Seq::empty(),
            },
    {
        match &self.prefix {
            Some(prefix) => prefix.clone(),
            None => String::new(),
        }
    }
}

impl Method {
    /// The name of the method, in upper case.
    pub open spec fn name(self) -> Seq<char> {
        match self {
            Method::Get => "GET"@,
            Method::Post => "POST"@,
            Method::Put => "PUT"@,
            Method::Delete => "DELETE"@,
            Method::Options => "OPTIONS"@,
            Method::Head => "HEAD"@,
            Method::Patch => "PATCH"@,
            Method::Trace => "TRACE"@,
        }
    }

    /// The name of the method, in upper case.
    pub fn as_str(&self) -> (name: &'static str)
        ensures
            name@ == self.name(),
    {
        match self {
            Method::Get => "GET",
            Method::Post => "POST",
            Method::Put => "PUT",
            Method::Delete => "DELETE",
            Method::Options => "OPTIONS",
            Method::Head => "HEAD",
            Method::Patch => "PATCH",
            Method::Trace => "TRACE",
        }
    }

    /// The method of the given name. A name that belongs to none of the
    /// methods that a document can describe is a configuration error.
    pub fn parse(name: &str) -> (outcome: Result<Method, ConfigError>)
        ensures
            match outcome {
                Ok(method) => method.name() == name@,
                Err(error) => error == ConfigError::UnsupportedMethod && forall|method: Method|
                    #[trigger] method.name() != name@,
            },
    {
        if same_text(name, "GET") {
            Ok(Method::Get)
        } else if same_text(name, "POST") {
            Ok(Method::Post)
        } else if same_text(name, "PUT") {
            Ok(Method::Put)
        } else if same_text(name, "DELETE") {
            Ok(Method::Delete)
        } else if same_text(name, "OPTIONS") {
            Ok(Method::Options)
        } else if same_text(name, "HEAD") {
            Ok(Method::Head)
        } else if same_text(name, "PATCH") {
            Ok(Method::Patch)
        } else if same_text(name, "TRACE") {
            Ok(Method::Trace)
        } else {
            Err(ConfigError::UnsupportedMethod)
        }
    }
}

impl Format {
    /// The format in which a document is written to a file whose name has the
    /// given extension: JSON for `json`, YAML for every other and for none.
    pub fn from_extension(extension: Option<&str>) -> (format: Format)
        ensures
            format == if text_model_of(extension) == Some("json"@) {
                Format::Json
            } else {
                Format::Yaml
            },
    {
        match extension {
            Some(e) => if same_text(e, "json") {
                Format::Json
            } else {
                Format::Yaml
            },
            None => Format::Yaml,
        }
    }

    /// The content type under which a document in this format is served.
    pub fn content_type(&self) -> (content_type: &'static str)
        ensures
            content_type@ == match self {
                Format::Json => "application/json"@,
                Format::Yaml => "text/yaml"@,
            },
    {
        match self {
            Format::Json => "application/json",
            Format::Yaml => "text/yaml",
        }
    }
}

/// Whether the document is to be written to a file in place of serving it:
/// it is where the switch is set to `1`.
pub fn dump_requested(switch: Option<&str>) -> (requested: bool)
    ensures
        requested == (text_model_of(switch) == Some("1"@)),
{
    match switch {
        Some(value) => same_text(value, "1"),
        None => false,
    }
}

} // verus!
