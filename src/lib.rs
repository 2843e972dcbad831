//! Live Ethernet capture: interface resolution by address, frame decoding,
//! hardware-address rendering and the shutdown-aware capture loop.

pub mod capture;
pub mod error;
pub mod frame;
pub mod iface;
pub mod mac;

pub use error::SnifferError;
pub use frame::{classify_ethertype, decode_frame, EthernetFrame, PayloadKind};
pub use mac::{format_mac, mac_to_string};
pub use iface::{find_target_interface, select_interface, InterfaceDescriptor};
pub use capture::{CaptureLoop, LoopPhase, LoopReport, LoopStep};
