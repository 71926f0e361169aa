//! OBD-II diagnostics over an ELM327 adapter: decoding of trouble codes and
//! PID values, checks of the adapter's replies, and the reply framing of the
//! serial link, with contracts proved by Verus. The serial I/O itself lives
//! in the application around this library.

pub mod cli;
pub mod dtc;
pub mod elm327;
pub mod error;
pub mod laws;
pub mod obd;
pub mod pid;
pub mod text;
pub mod transport;

pub use elm327::VehicleInfo;
pub use error::{ObdError, Result};
