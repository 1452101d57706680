//! Driver logic for GreenCell UPS devices: wire decoding, report parsing,
//! shutdown-delay selection, device selection and ordering, the decisions
//! inside the transfer loops, and the command-line helpers (arguments, exit
//! codes, `watch`), each with a machine-checked contract.

pub mod text;
pub mod error;
pub mod device;
pub mod wire;
pub mod cypress_t;
pub mod status;
pub mod shutdown;
pub mod report;
pub mod cli;
pub mod duration;
pub mod transfer;
pub mod watch;
pub mod command;

pub use device::{DeviceInfo, DeviceLocation, DeviceSelector, UpsTransport};
pub use error::Error;
pub use shutdown::ShutdownDelay;
