//! Shared state of an OAuth2 authorization server: a client registry, an
//! authorization-code store and a stateless signed-token issuer.
pub mod codes;
pub mod crypto;
pub mod issuer;
pub mod registry;
pub mod scope;
pub mod state;
pub mod token;
