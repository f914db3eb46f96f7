//! Parsing, inspection and re-serialization of SSH public keys.
//!
//! A key line of the form `<algorithm-id> <base64-payload> [comment]` is
//! decoded into a typed [`PublicKey`]; the key can be inspected (algorithm
//! identifier, bit size, fingerprint) and rendered back into its textual
//! form. The binary payload follows the SSH wire format: big-endian,
//! 4-byte length-prefixed fields, with the non-standard `mpint` encoding
//! for large integers.
//!
//! Keys are never generated here and no cryptographic validity of the
//! numeric material is checked; RSA and DSA keys can however be built
//! from components obtained elsewhere.

use vstd::prelude::*;

pub mod b64;
pub mod digest;
pub mod error;
pub mod key;
pub mod text;
pub mod wire;

pub use error::Error;
pub use key::Curve;
pub use key::Data;
pub use key::PublicKey;

