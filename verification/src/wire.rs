//! Wire-format codecs.
//!
//! - Fixed-size 32-byte values travel as lower-case hexadecimal strings.
//! - Opaque bytes of any length travel as unpadded base64url strings.
pub mod base64url_bytes_bytes;
pub mod base64url_bytes_opt;
pub mod hex_array;
