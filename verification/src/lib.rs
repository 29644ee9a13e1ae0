//! A SIGTRAN/SS7 signalling node: MTP3 routing, SCCP global-title translation,
//! content routing on the decoded MAP/CAP layer, and MAP/CAP dialogue termination.
//!
//! - [`config`]: the node's tables and their validation.
//! - [`point_code`]: point codes under a variant.
//! - [`mtp3`]: the route resolver and its availability state.
//! - [`sccp`]: global-title translation, E.214/E.164 conversion, and SCCP messages.
//! - [`content`]: content routing over a decoded MAP/CAP view.
//! - [`isup`]: ISUP transit screening.
//! - [`tenant`] and [`routing`]: the tenants, and the router over all of these.
//! - [`transaction`] and [`dialogue`]: TCAP transactions and the dialogue engine.
//! - [`transport`]: framing, associations, forwarding and loop guards.
//! - [`metrics`]: the counters and gauges, and their text form.
pub mod config;
pub mod content;
pub mod dialogue;
pub mod error;
pub mod isup;
pub mod metrics;
pub mod mtp3;
pub mod point_code;
pub mod python;
pub mod routing;
pub mod sccp;
pub mod sorted_map;
pub mod tenant;
pub mod text;
pub mod transaction;
pub mod transport;
pub mod view_laws;

pub use crate::config::Config;
pub use crate::dialogue::{
    Dialogue, DialogueEngine, IncomingOp, OutgoingBegin, PeerComponent, PeerTurn, Role,
    TerminationHandler,
};
pub use crate::error::{Error, Result};
pub use crate::mtp3::route::Destination;
pub use crate::routing::{RouteDecision, Router};
pub use crate::transport::forward::LocalDelivery;

use vstd::prelude::*;

verus! {

} // verus!
