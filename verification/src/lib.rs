//! A schema-driven mock engine for an OpenAPI-described HTTP API: it
//! resolves schema references, validates JSON values against schema
//! fragments, synthesizes schema-conformant values — honoring per-field
//! overrides — and matches path templates and methods to declared
//! operations. Every function here carries a contract over the
//! mathematical model of its data, and the round-trip law — a freshly
//! generated value validates against its own schema — is proved for the
//! safe subset of schemas.

pub mod cli;
pub mod config;
pub mod generate;
pub mod json;
pub mod laws;
pub mod num;
pub mod outside;
pub mod request;
pub mod routes;
pub mod swagger;
pub mod text;
pub mod validate;
