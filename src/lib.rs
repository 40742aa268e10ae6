//! Verified core of a TLS-desync SOCKS4 relay: the split-plan model, the
//! desync engine's operation schedule, the SOCKS4 handshake, the relay's
//! per-chunk decisions and the configuration that drives them.
pub mod bypass;
pub mod cmd;
pub mod relay;
pub mod socks;
pub mod udp;
