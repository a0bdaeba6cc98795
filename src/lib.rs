//! Compile-time rendering of markdown tagged templates.
pub mod bindings;
pub mod codec;
pub mod config;
pub mod dedent;
pub mod template;
mod text;
pub mod transform;
