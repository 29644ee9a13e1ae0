//! Content routing: routing on the decoded application layer.
//!
//! A content rule matches over a read-only view of a MAP/CAP message
//! ([`view::MapView`]) and yields an action: route the message onward, optionally
//! rewriting the called-party digits, screen it, or defer to a script hook. The
//! rules are ordered and the first match wins.
pub mod engine;
pub mod forward_sm;
pub mod laws;
pub mod operation;
pub mod view;

pub use self::engine::{Action, ContentEngine, Hit};
pub use self::operation::Operation;
pub use self::view::{decode_map_view, MapView};
