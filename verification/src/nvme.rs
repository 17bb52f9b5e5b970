//! NVMe itself: admin commands, the structures they return, and the
//! controllers they are sent to.

pub mod device;
pub mod discovery;
pub mod error;
pub mod ioctl;
pub mod text;
pub mod types;
pub mod wire;
