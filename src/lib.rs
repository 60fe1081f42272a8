//! A SOAP-style RPC engine: envelope parsing, operation dispatch, response
//! rendering and interface-document generation, with their contracts proved.
pub mod endpoint;
pub mod error;
pub mod fault;
pub mod reader;
pub mod response;
pub mod schema;
pub mod service;
pub mod types;
pub mod xml;
