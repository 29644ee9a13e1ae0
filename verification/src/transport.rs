//! The transport plane: framing, egress selection, the per-message pipeline and
//! the association state machines. Sockets and tasks live with the caller; each
//! step here takes what arrived and says what to do next.
pub mod association;
pub mod association_laws;
pub mod forward;
pub mod forward_laws;
pub mod framing;
pub mod framing_laws;
pub mod laws;
pub mod msu;
pub mod node;
pub mod node_laws;
pub mod registry;
pub mod registry_laws;
pub mod wire;

pub use self::msu::{Msu, TransportError};
pub use self::registry::Registry;
