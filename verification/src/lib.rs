//! Core of a tag-length-value (ASN.1 BER/DER) codec.
//!
//! The crate defines how a domain type becomes decodable from and encodable
//! to the wire format by implementing a single primitive conversion from a
//! generic decoded node, and how the canonical variant (DER) layers extra
//! validation on top of the permissive variant (BER) without duplicating
//! logic. It also provides context-tag wrapping (explicit/implicit) and a
//! conversion that strips borrowed lifetimes from a decoded value.
//!
//! Wire format restrictions: only low-tag-number identifiers (tag numbers
//! up to 30, one identifier octet) are supported; the multi-octet tag form
//! is rejected on decode and refused on encode. The content of an
//! indefinite-length node ends at the first pair of zero octets, so nested
//! nodes whose own encodings contain two consecutive zero octets are not
//! supported under the indefinite form; the definite forms carry any
//! content.

pub mod types;
pub mod encode;
pub mod decode;
pub mod traits;
pub mod tagged;
pub mod integer;
pub mod boolean;
pub mod laws;
