//! A minimal static-file HTTP responder: request-line parsing, route
//! resolution and response framing, each with a machine-checked contract.

pub mod decimal;
pub mod request;
pub mod response;
pub mod text;
