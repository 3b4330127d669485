//! Key management and signature encoding for a remote threshold signer.
//!
//! The signer holds no private key. It asks a remote backend for public keys
//! and signatures, and the caller supplies the remote call itself. A
//! `KeyCache` remembers public keys and registers fetches that are under way;
//! a `SigningBackendClient` retries calls as its `RetryPolicy` says; the codec
//! turns a raw signature into an EVM `(r, s, v)` triple whose recovery id
//! recovers the expected public key; a `SignerFacade` puts the three
//! together.
pub mod backend;
pub mod bytes;
pub mod cache;
pub mod codec;
pub mod error;
pub mod facade;
pub mod identity;
