//! Decoding of packet capture files and derivation of TCP handshake time series.
pub mod bytes;
pub mod capture;
pub mod classify;
pub mod series;
