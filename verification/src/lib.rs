//! Builders for OpenRPC documents (<https://spec.open-rpc.org>) describing a JSON-RPC API.
//!
//! The document model is partial: only the required fields and a subset of the optional
//! fields of the specification are represented.

pub mod document;
pub mod laws;
pub mod external;
pub mod method_order;
pub mod name_map;
pub mod project;
pub mod rpc_module;
pub mod text;

pub use document::{
    Components, Contact, ContentDescriptor, Error, Example, ExamplePairing, ExternalDocs,
    Info, License, Method, ParamStructure, Tag,
};
pub use name_map::NameMap;
pub use project::{Project, ProjectBuilder, OPENRPC_VERSION};
pub use rpc_module::{Module, RpcModuleDocBuilder};
