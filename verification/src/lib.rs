//! Transactional-email construction and dispatch.
//!
//! Given a named template, a recipient list, a subject and a set of template
//! variables, this library renders an HTML and a plaintext body from a shared
//! template corpus, injects environment-derived and computed variables, and
//! prepares the resulting message for delivery through one of several
//! interchangeable backends (HTTP API or SMTP relay). Required configuration
//! is validated up front, independent of any send.

pub mod common;
pub mod context;
pub mod corpus;
pub mod env;
pub mod json;
pub mod postmark;
pub mod sendgrid;
pub mod smtp;
pub mod welcome;
