//! A logging pipeline's decision core: severity filtering, time-based
//! rotation, retention of rotated files, bounded non-blocking queues and the
//! fan-out of records to a console sink and a file sink.
pub mod channel;
pub mod dispatch;
pub mod error;
pub mod registry;
pub mod rolling;
pub mod rotation;
pub mod severity;
pub mod settings;

pub use error::LogManagerError;
pub use rotation::get_rotation_file;
pub use severity::get_log_level;
