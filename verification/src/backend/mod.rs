//! Backends that deliver uplinks and transmit downlinks.
pub mod semtech_udp;
