//! Core logic of geohog, a terminal dashboard that lists the TCP
//! connections of the machine and geolocates their remote ends.

pub mod collections;
pub mod config;
pub mod geography;
pub mod map_load;
pub mod net;
pub mod net_client;
