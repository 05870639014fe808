//! Server configuration.
//!
//! Host-facing switches for the accept loop and per-connection driver:
//! bind address, connection cap, negotiated chunk size, window and
//! bandwidth values, timeouts in milliseconds, and GOP buffering.

use vstd::prelude::*;

verus! {

/// Server configuration options.
#[derive(Debug, Clone)]
pub struct ServerConfig {
    /// Address to bind to, as "host:port" text
    pub bind_addr: String,
    /// Maximum concurrent connections (0 = unlimited)
    pub max_connections: usize,
    /// Chunk size to negotiate with clients
    pub chunk_size: u32,
    /// Window acknowledgement size
    pub window_ack_size: u32,
    /// Peer bandwidth limit
    pub peer_bandwidth: u32,
    /// Handshake must complete within this many milliseconds
    pub connection_timeout_ms: u64,
    /// Disconnect after this many milliseconds without data
    pub idle_timeout_ms: u64,
    /// Disable Nagle's algorithm on accepted sockets
    pub tcp_nodelay: bool,
    /// Application-level read buffer size
    pub read_buffer_size: usize,
    /// Application-level write buffer size
    pub write_buffer_size: usize,
    /// Buffer GOPs for late joiners
    pub gop_buffer_enabled: bool,
    /// Maximum GOP buffer size in bytes
    pub gop_buffer_max_size: usize,
    /// Statistics update interval in milliseconds
    pub stats_interval_ms: u64,
}

impl Default for ServerConfig {
    /// Defaults: port 1935 on all interfaces, unlimited connections,
    /// a 4096-byte chunk size, the standard window and bandwidth, 10 s
    /// handshake and 60 s idle timeouts, TCP_NODELAY on, 64 KiB buffers,
    /// GOP buffering on with a 4 MiB budget.
    fn default() -> (r: Self)
        ensures
            r.bind_addr@ == "0.0.0.0:1935"@,
            r.max_connections == 0,
            r.chunk_size == crate::RECOMMENDED_CHUNK_SIZE,
            r.window_ack_size == crate::DEFAULT_WINDOW_ACK_SIZE,
            r.peer_bandwidth == crate::DEFAULT_PEER_BANDWIDTH,
            r.connection_timeout_ms == 10_000,
            r.idle_timeout_ms == 60_000,
            r.tcp_nodelay,
            r.read_buffer_size == 64 * 1024,
            r.write_buffer_size == 64 * 1024,
            r.gop_buffer_enabled,
            r.gop_buffer_max_size == 4 * 1024 * 1024,
            r.stats_interval_ms == 5_000,
    {
        ServerConfig {
            bind_addr: String::from_str("0.0.0.0:1935"),
            max_connections: 0,
            chunk_size: crate::RECOMMENDED_CHUNK_SIZE,
            window_ack_size: crate::DEFAULT_WINDOW_ACK_SIZE,
            peer_bandwidth: crate::DEFAULT_PEER_BANDWIDTH,
            connection_timeout_ms: 10_000,
            idle_timeout_ms: 60_000,
            tcp_nodelay: true,
            read_buffer_size: 64 * 1024,
            write_buffer_size: 64 * 1024,
            gop_buffer_enabled: true,
            gop_buffer_max_size: 4 * 1024 * 1024,
            stats_interval_ms: 5_000,
        }
    }
}

impl ServerConfig {
    /// A config bound to the given address, defaults otherwise.
    pub fn with_addr(addr: String) -> (r: Self)
        ensures
            r.bind_addr == addr,
            r.max_connections == 0,
            r.chunk_size == crate::RECOMMENDED_CHUNK_SIZE,
    {
        let mut c = Self::default();
        c.bind_addr = addr;
        c
    }

    /// Set the bind address.
    pub fn bind(self, addr: String) -> (r: Self)
        ensures
            r == (ServerConfig { bind_addr: addr, ..self }),
    {
        ServerConfig { bind_addr: addr, ..self }
    }

    /// Set the connection cap.
    pub fn max_connections(self, max: usize) -> (r: Self)
        ensures
            r == (ServerConfig { max_connections: max, ..self }),
    {
        ServerConfig { max_connections: max, ..self }
    }

    /// Set the chunk size, capped at 2^24 - 1.
    pub fn chunk_size(self, size: u32) -> (r: Self)
        ensures
            r.chunk_size == (if size < crate::MAX_CHUNK_SIZE {
                size
            } else {
                crate::MAX_CHUNK_SIZE
            }),
            r.bind_addr == self.bind_addr,
            r.max_connections == self.max_connections,
            r.window_ack_size == self.window_ack_size,
            r.connection_timeout_ms == self.connection_timeout_ms,
            r.idle_timeout_ms == self.idle_timeout_ms,
            r.gop_buffer_enabled == self.gop_buffer_enabled,
    {
        let capped = if size < crate::MAX_CHUNK_SIZE {
            size
        } else {
            crate::MAX_CHUNK_SIZE
        };
        ServerConfig { chunk_size: capped, ..self }
    }

    /// Turn GOP buffering off.
    pub fn disable_gop_buffer(self) -> (r: Self)
        ensures
            r == (ServerConfig { gop_buffer_enabled: false, ..self }),
    {
        ServerConfig { gop_buffer_enabled: false, ..self }
    }

    /// Set the handshake timeout.
    pub fn connection_timeout(self, timeout_ms: u64) -> (r: Self)
        ensures
            r == (ServerConfig { connection_timeout_ms: timeout_ms, ..self }),
    {
        ServerConfig { connection_timeout_ms: timeout_ms, ..self }
    }

    /// Set the idle timeout.
    pub fn idle_timeout(self, timeout_ms: u64) -> (r: Self)
        ensures
            r == (ServerConfig { idle_timeout_ms: timeout_ms, ..self }),
    {
        ServerConfig { idle_timeout_ms: timeout_ms, ..self }
    }
}

} // verus!
