//! A verified core for a lazily-provisioning reverse proxy.
//!
//! The library models the two components at the heart of the proxy:
//! the [`resolver::Resolver`], which maps route names to backend worker
//! addresses and coordinates first-use provisioning so that at most one
//! provisioning attempt per route is ever in flight, and the dispatcher
//! ([`dispatch`]), which classifies inbound requests, plans the fixed
//! responses, and builds the rewritten destination for forwarded requests.
//!
//! All state and requests are modelled as plain values (byte vectors,
//! integers); the surrounding process supplies the HTTP transport and
//! performs the actual provisioning, feeding outcomes back into the
//! resolver through its transition methods.

pub mod dispatch;
pub mod record;
pub mod resolver;
pub mod text;
