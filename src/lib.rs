//! Safe client layer over libkmod: the error taxonomy, the translation of native
//! status codes, C string validation, the list cursor protocol and the decoding
//! and grouping of module metadata, each stated and proved.

pub mod cstr;
pub mod cursor;
pub mod errors;
pub mod info;
pub mod text;

pub use cstr::{join_options, nul_position, options_c_string, to_c_string};
pub use cursor::ListCursor;
pub use errors::{context_from_handle, failure, native_status, Errno, Error, Operation};
pub use info::group_by_key;
pub use text::{decode_text, metadata_pair};
