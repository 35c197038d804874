//! Display resolution detection for Linux DRM devices, and the FSR
//! render-resolution table used when launching gamescope.
//!
//! The library holds the decisions: which device nodes to scan, which mode
//! each connected connector reports, which display is selected, how a quality
//! tier maps a resolution to a render resolution, and how the gamescope
//! arguments are built. Reading device nodes is left to the caller, which
//! hands the library plain snapshots of what the kernel reported.

pub mod devices;
pub mod display;
pub mod error;
pub mod fsr;
pub mod gamescope;
pub mod resolution;
pub mod text;
pub mod verbosity;

pub use error::RresError;
pub use fsr::Fsr;
pub use devices::{card_names, check_card};
pub use display::{
    get_card_modes, get_connector_mode, get_display, get_displays, CardInfo, ConnectionState,
    ConnectorInfo, CrtcInfo, EncoderInfo, Mode, ModeLookup,
};
pub use gamescope::gamescope;
pub use resolution::parse_res;
pub use verbosity::{decrement_loglevel, increment_loglevel, LogLevel};
