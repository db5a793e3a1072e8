//! A polling TCP/IP stack core: ring buffers, socket state machines, a socket
//! container with a dispatch index and a dirty queue, and an Ethernet interface
//! engine that classifies frames and builds replies.

pub mod error;
pub mod ring_buffer;
pub mod wire;
pub mod raw;
pub mod udp;
pub mod tcp;
pub mod socket;
pub mod dispatch;
pub mod container;
pub mod arp_cache;
pub mod phy;
pub mod iface;
pub mod layers;
