//! Percent-encoding and percent-decoding of text for the parts of a URI.
//!
//! Text is modelled by its UTF-8 bytes, a set of bytes says what is written
//! as `%HH`, and every function states its result over these:
//!
//! - [`encode_sets`]: the sets, one for each part of a URI;
//! - [`codec`]: what escaping and unescaping are, and what holds of them;
//! - [`encode`] and [`decode`]: the operations on text;
//! - [`mode`]: the operation that a set of flags selects, applied to an input;
//! - [`driver`]: the line written for each input of a run;
//! - [`text`]: substitution and splitting of text at ASCII characters.

pub mod codec;
pub mod decode;
pub mod driver;
pub mod encode;
pub mod encode_sets;
pub mod error;
pub mod mode;
pub mod text;

pub use decode::{decode, decode_plus};
pub use encode::{
    encode_all, encode_all_plus, encode_all_reserved, encode_all_reserved_plus,
    encode_characters, encode_fragment, encode_path, encode_path_segment, encode_query,
    encode_query_plus, encode_url, encode_url_plus, encode_userinfo,
};
pub use error::EncodeError;
pub use mode::{get_handler, Flags, Mode};
