//! MTP3 routing: the route resolver and its availability state.
//!
//! Given a destination point code and a tenant, which egress (an M3UA
//! Application Server or an M2PA linkset) do we send on? The static routes and
//! the implicit routes of adjacent point codes are filtered by what is available,
//! and the lowest priority number wins.
pub mod laws;
pub mod route;
pub mod route_laws;

pub use self::route::{Destination, LinksetId, Mtp3Event, Mtp3Status, RouteResolver, RouteState};
