//! Schemas of binding roles, module types and device types, the built-in
//! registry of them, and validation of configured instances against it.

pub mod builtins;
pub mod registry;
pub mod types;
pub mod validate;

pub use registry::SchemaRegistry;
