//! Control library for a NordVPN-backed HTTP proxy: the parsing of the
//! `nordvpn` command line client's output, the daemon supervision steps, the
//! proxy's bookkeeping and rotation policies, and the cluster membership
//! tables of the admin interface.
pub mod text;
pub mod daemon;
pub mod nordvpn;
pub mod proxy;
pub mod helper;
pub mod admin;
pub mod filters;
pub mod laws;
pub mod reading_laws;
