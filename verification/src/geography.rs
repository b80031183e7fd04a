//! Country borders and country data.

pub mod map_load;
