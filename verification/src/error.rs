use vstd::prelude::*;

verus! {

/// Why a tunnel endpoint stopped. None of these is retried.
#[derive(Debug, Clone, Copy, PartialEq, Eq)]
pub enum TunnelError {
    /// A read from the virtual interface failed.
    SourceReadError,
    /// The virtual interface delivered a header shorter than 20 bytes.
    MalformedHeader,
    /// The connection failed or the peer closed it where a frame would begin.
    TransportReadError,
    /// A write to the connection failed.
    TransportWriteError,
    /// A write to the virtual interface failed.
    InterfaceWriteError,
    /// The connection closed before all the bytes that a frame declared had
    /// arrived.
    TruncatedFrame,
}

} // verus!
