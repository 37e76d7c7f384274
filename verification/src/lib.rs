//! Derives an OpenAPI-style description of an API from the declared types of
//! its handlers.
//!
//! Types take part as descriptors ([`TypeDesc`]) over a catalog of named
//! types ([`TypeCatalog`]). A descriptor is reflected into a schema node
//! ([`OaSchema`]), the named types that it reaches are collected into a
//! registry ([`collect`], [`HasReferences`]), a handler's signature gives an
//! operation ([`OperationDescriptor`]), and registrations assemble the
//! operations into a document ([`Server`], [`Document`]).

pub mod collect;
pub mod document;
pub mod names;
pub mod operation;
pub mod path;
pub mod reach;
pub mod registry;
pub mod schema;
pub mod server;
pub mod text;
pub mod types;

pub use crate::collect::{collect, HasReferences};
pub use crate::document::{Document, Method, PathItem};
pub use crate::operation::{OperationDescriptor, ResponseDescriptor, Signature, StatusClass};
pub use crate::path::normalize_path;
pub use crate::registry::ReferenceRegistry;
pub use crate::schema::{ParameterDescriptor, ParameterLocation, Property, SchemaNode};
pub use crate::server::{dump_requested, ConfigError, Format, Server, SpecRoute, SwaggerUi};
pub use crate::types::{Field, NamedRef, NamedType, OaSchema, PathArgument, TypeCatalog, TypeDesc};
