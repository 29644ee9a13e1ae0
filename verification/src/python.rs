//! The scripting surface: what a script programs and terminates, apart from the
//! interpreter itself.
//!
//! A script names operations, builds invokes and results, drives dialogues through
//! a buffer of commands, reads the peer's turns, and programs the node's routing
//! tables. Calling the script is left to the caller; each piece here takes what the
//! script gave and says what becomes of it.
pub mod builders;
pub mod codec;
pub mod command;
pub mod error;
pub mod fields;
pub mod laws;
pub mod node;
pub mod operations;
pub mod peer;

pub use self::builders::{CapAc, GsmCap, GsmMap, Inap, InapAc, MapAc, MapAcHandle};
pub use self::command::{DlgCmd, PyDialogue, StagedInvoke, StagedResult};
pub use self::error::SigtranError;
pub use self::node::{Address, Node, NodeState};
pub use self::peer::{PyDecoded, PyIncomingOp, PyPeerTurn};
