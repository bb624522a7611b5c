//! Encoder and decoder for a legacy password-obfuscation scheme: every byte
//! of a secret is combined with a fixed single-byte mask via exclusive-or and
//! the result is wrapped in standard base64 text. The scheme is reversible by
//! design and offers no cryptographic protection; this crate exists for
//! compatibility with strings produced by the legacy encoder.
pub mod codec;
pub mod ops;
pub mod transform;

pub use ops::str_decode;
pub use ops::str_encode;
pub use ops::CodecError;
pub use transform::xor;
pub use transform::MAGIC;
