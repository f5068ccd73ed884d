//! TLS for IEEE 2030.5: which certificates fit the standard, which servers a client trusts, and what
//! peers present themselves with.
//!
//! - [`der`] and [`text`] hold the bytes and texts that certificates are made of.
//! - [`certificate`] models a certificate, [`x509`] takes one apart, [`pem`] reads files.
//! - [`profile`] checks certificates against the profiles of IEEE 2030.5.
//! - [`time`], [`validate`], [`names`] and [`chain`] verify a server's certificates step by step,
//!   [`server_cert`] as a whole, and [`signature`] what the server signs in the handshake.
//! - [`load`] and [`identity`] load certificates, private keys and trust anchors.
//! - [`test_server`] decides what the server answers that clients are tested against.

pub mod certificate;
pub mod chain;
pub mod der;
pub mod error;
pub mod identity;
pub mod load;
pub mod names;
pub mod pem;
pub mod profile;
pub mod server_cert;
pub mod signature;
pub mod test_server;
pub mod text;
pub mod time;
pub mod validate;
pub mod x509;
