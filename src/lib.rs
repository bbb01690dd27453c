pub mod json;
pub mod keyed;
pub mod schema_spec;
pub mod text;
pub mod tool;
pub mod ts_interface;
pub mod sandbox;
pub mod client;
pub mod mcp;
pub mod install;
