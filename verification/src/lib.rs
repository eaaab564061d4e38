//! Session-state coordinator for a peer-to-peer transfer client.
//!
//! The library keeps an authoritative, queryable snapshot of every active
//! transfer: its progress, peer count and lifecycle status. A separate
//! transfer engine runs the wire protocol and reports progress through
//! alerts; the surrounding application forwards each engine outcome and each
//! alert to the verified functions here, which make every decision about the
//! session state.

pub mod laws;
pub mod manager;
pub mod registry;
pub mod torrent;
