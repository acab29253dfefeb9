//! Turns the operations of an interface description into requests.
//!
//! - [`openapi`] derives the catalog: one operation for each method that a
//!   path of the document declares, with its parameters.
//! - [`binder`] matches the values that a caller supplied against the
//!   parameters of an operation.
//! - [`http`] makes one request of an operation, its bound values and a
//!   base address: path, query, headers, body, credentials and verb.
//! - [`template`] states what substitution does to a path template that is
//!   made of text and placeholders.
//! - [`cli`] and [`sorting`] hold what the command line decides around a
//!   request.
//! - [`bridge`] states what is taken on trust of the URL, JSON and header
//!   libraries; [`text`] holds the string helpers.

pub mod binder;
pub mod bridge;
pub mod cli;
pub mod errors;
pub mod http;
pub mod openapi;
pub mod sorting;
pub mod template;
pub mod text;
