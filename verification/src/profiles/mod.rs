//! Device profiles: register address mappings and byte-order handling.

pub mod device_profile;
