//! Verified core of the El Tor backend: torrc handling, port selection,
//! path layout, SOCKS request parsing and the small decision procedures
//! that the service wraps around them.

pub mod text;
pub mod torrc_parser;
pub mod paths;
pub mod ports;
pub mod state;
pub mod eltor;
pub mod lightning;
pub mod routes;
pub mod socks;
pub mod debug_info;
pub mod static_files;
pub mod arti;
pub mod ip;
pub mod desktop;
