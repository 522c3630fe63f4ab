//! # api2cli
//!
//! **Turn any OpenAPI/Swagger specification into a fully-functional CLI.**
//!
//! The library reads a spec (as a [`JsonValue`]) into an [`ApiSpec`], turns
//! its operations into a command tree grouped by tag, picks the operation
//! that an invocation names and builds its HTTP request. Each step is stated
//! in its contract and proved.

pub mod error;
pub mod generator;
pub mod json;
pub mod laws;
pub mod runtime;
pub mod spec;
pub mod text;

pub use error::Error;
pub use generator::ProjectGenerator;
pub use json::JsonValue;
pub use runtime::{derive_app_name, DynamicCli, DynamicCliConfig, OutputFormat};
pub use spec::{ApiSpec, Operation, SpecLoader};
