//! Settings of a telnet server.

use vstd::prelude::*;

verus! {

/// Configuration of a server.
#[derive(Debug, Clone)]
pub struct Config {
    /// The banner, usually a warning message shown to the client.
    pub banner: Option<&'static str>,
    /// The initial size of a channel (used for flow control).
    pub window_size: u32,
    /// The maximal size of a single packet.
    pub maximum_packet_size: u32,
    /// Seconds after which an idle connection is closed.
    pub connection_timeout: Option<u64>,
}

impl Default for Config {
    /// No banner, a window of 2 MiB, packets of up to 32 KiB, and ten
    /// minutes until an idle connection is closed.
    fn default() -> (config: Config)
        ensures
            config.banner is None,
            config.window_size == 2097152,
            config.maximum_packet_size == 32768,
            config.connection_timeout == Some(600u64),
    {
        Config {
            banner: None,
            window_size: 2097152,
            maximum_packet_size: 32768,
            connection_timeout: Some(600),
        }
    }
}

} // verus!
