//! Automatic TLS certificate lifecycle management.
//!
//! The core of this crate drives certificate issuance and renewal against an
//! ACME certificate authority (RFC 8555): building signed JWS request
//! envelopes, managing single-use anti-replay nonces, walking an order
//! through authorization, challenge, finalization and download, serving the
//! TLS-ALPN-01 challenge certificate during validation handshakes, and
//! keeping a cache of issued certificates that a listener consults on every
//! incoming connection.  All protocol decisions are made by verified
//! functions over plain values; network transport and private-key operations
//! of outside libraries stand behind a small set of trusted wrappers.

pub mod account;
pub mod b64;
pub mod cache;
pub mod client;
pub mod crypto;
pub mod flight;
pub mod jose;
pub mod json;
pub mod nonce;
pub mod order;
pub mod protocol;
pub mod resolver;
pub mod service;
pub mod web;
