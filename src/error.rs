use vstd::prelude::*;

verus! {

/// Every failure the sniffer can report: the first four are fatal at startup,
/// the last two are recoverable events inside the capture loop.
#[derive(Debug, PartialEq, Eq)]
pub enum SnifferError {
    /// No non-loopback interface owns the requested address.
    InterfaceNotFound(String),
    /// The link-layer channel could not be opened.
    ChannelCreationFailed(String),
    /// One blocking receive failed while the loop was still running.
    PacketReadFailed(String),
    /// A received buffer is too short to hold an Ethernet header.
    FrameParseFailed,
    /// The interrupt handler could not be installed.
    SignalHandlerSetupFailed(String),
    /// The opened channel does not deliver Ethernet frames.
    UnsupportedChannelType,
}

} // verus!
