//! Verified core of a user-space network library OS: a zero-copy packet
//! buffer abstraction, a single-producer single-consumer ring, a waker-page
//! task scheduler, protocol headers (Ethernet, IPv4, ICMP, UDP), an ARP
//! resolver, and the established-TCP connection state machine.

pub mod arp;
pub mod checksum;
pub mod condition_variable;
pub mod demibuffer;
pub mod eth;
pub mod fail;
pub mod group;
pub mod icmp;
pub mod id_map;
pub mod ipv4;
pub mod net;
pub mod queue;
pub mod ring;
pub mod runtime;
pub mod scheduler;
pub mod shared;
pub mod task;
pub mod tcp;
pub mod udp;
pub mod waker64;
pub mod waker_page;

pub use demibuffer::DemiBuffer;
pub use fail::Fail;
