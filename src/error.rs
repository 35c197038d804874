use vstd::prelude::*;

verus! {

/// The ways a query or a parse can fail.
#[derive(Clone, Copy, Debug, PartialEq, Eq, Structural)]
pub enum RresError {
    /// The selected device does not exist or is not named `card<N>`.
    InvalidDevice,
    /// A device's resource handles could not be read.
    ResourceQuery,
    /// A connector was not connected when its mode was resolved.
    ConnectorDisconnected,
    /// A quality tier or a forced resolution could not be parsed.
    Parse,
    /// The selected display index is past the end of the display list.
    IndexOutOfRange,
    /// No connected display was found on any scanned device.
    NoDisplaysFound,
}

impl RresError {
    /// A short human-readable description of the error.
    pub fn message(&self) -> (r: &'static str) {
        match self {
            RresError::InvalidDevice => "invalid card",
            RresError::ResourceQuery => "failed to get resource handles",
            RresError::ConnectorDisconnected => "connector is disconnected",
            RresError::Parse => "failed to parse value",
            RresError::IndexOutOfRange => "invalid display",
            RresError::NoDisplaysFound => "no displays found",
        }
    }
}

} // verus!
