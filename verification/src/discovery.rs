//! Peer discovery: who is on the network.
//!
//! Peers advertise themselves over mDNS with TXT records that carry their
//! address (`peer=<hex>`) and where they listen (`zenoh=<url>`). Where mDNS is
//! filtered, a static seed list takes its place.
//!
//! Discovery says *who's there*, not *who's allowed*, and nothing about who is
//! still alive.
pub mod run;
pub mod seed;
pub mod service;
pub mod types;
