//! A credential issuer that mints short-lived GCP credentials for the callers of
//! a gateway.
//!
//! The gateway has a base identity of its own. With it the issuer impersonates,
//! through the IAM Credentials API, a service account that is chosen by mapping
//! the caller's identity, and hands out an OAuth2 access token or an OIDC ID
//! token for it.
//!
//! - [`config`]: what an operator may configure, and when it is refused.
//! - [`identity_mapping`]: from a caller to the email of a service account.
//! - [`plugin`]: who may have which account impersonated, and what is issued.
//! - [`client`]: the calls of the API, the base token and its cache, and what
//!   the replies mean.
//! - [`laws`]: what holds of the parts together.
//! - [`protocol`]: what the gateway and the issuer exchange.
//! - [`name_map`], [`text`]: maps from names, and texts.
//! - [`outside`]: the calls into other crates.
//!
//! Nothing here reads from or writes to the network: each function takes what
//! was received and says what is to be sent.

pub mod client;
pub mod config;
pub mod identity_mapping;
pub mod laws;
pub mod name_map;
pub mod outside;
pub mod plugin;
pub mod protocol;
pub mod text;

pub use config::{
    BaseAuth, ConfigError, GcpImpersonationConfig, IdentityMapping, TargetConfig, TokenKind,
};
pub use plugin::GcpImpersonationPlugin;
