//! The wire protocol that the two ends of a session speak.
//!
//! Every message is a header of five bytes and a payload:
//!
//! ```text
//! +------------+--------------------+-----------------------+
//! | u8         | u32 little-endian  | payload (`len` bytes) |
//! | field type |        len         |                       |
//! +------------+--------------------+-----------------------+
//! ```
//!
//! Descriptors that a message delegates never stand in the byte stream: an
//! [`FieldType::Fd`] payload holds their number only.

pub mod error;
pub mod field;
pub mod header;
pub mod laws;
pub mod message;

pub use error::{ProtoError, ProtoErrorView};
pub use field::{FieldType, SessionType};
pub use header::{Header, MAX_PAYLOAD};
pub use message::{decode_message, Message, MessageView};
