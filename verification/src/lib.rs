//! Shibboleth SP authentication support for Gotham web applications.
//!
//! The heart of the crate is a schema-driven decoder that turns one flat
//! collection of named, string-valued attributes (the headers injected by an
//! authenticating reverse proxy) into a value of a statically described
//! target shape.  The decoder is specified and verified here; the web-facing
//! glue that feeds it lives outside the verified library.

pub mod authenticated_session;
pub mod headers;
pub mod middleware;
pub mod receiver;

pub use authenticated_session::AuthenticatedSession;
pub use middleware::Shibbleware;
pub use receiver::ReceiverFailed;
