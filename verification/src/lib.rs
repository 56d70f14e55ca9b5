//! Verified core of a BACnet runtime, server and transport stack.
//!
//! The modules hold the decision logic of the stack as plain-value state
//! machines with contracts: the runtime work scheduler, configuration
//! validation, client request preparation, the COV subscription table, BBMD
//! table validation and live control, the BVLL codec and the one-at-a-time
//! BVLC management exchange, B/IP start-up and framing, management rate
//! limiting, confirmed-request duplicate detection, foreign-device
//! registration telemetry, segmented-request reassembly, BACnet/SC hub
//! identity and reconnect planning, NetworkPort publication and the other
//! bookkeeping that the asynchronous I/O layer drives. Time is passed in
//! explicitly as monotonic milliseconds.

pub mod address;
pub mod error;
pub mod scheduler;
pub mod bbmd;
pub mod bbmd_control;
pub mod bvlc;
pub mod rate_limit;
pub mod cov;
pub mod pics;
pub mod runtime_config;
pub mod sc_recovery;
pub mod segmentation;
pub mod topology;
pub mod server_config;
pub mod foreign_device;
pub mod request_tracker;
pub mod tsm;
pub mod virtual_network;
pub mod hub_url;
pub mod operation;
pub mod network_port;
pub mod bip_start;
pub mod bvlc_exchange;
pub mod bip_transport;
