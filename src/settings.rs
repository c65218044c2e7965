use vstd::prelude::*;

use crate::dispatch::{Dispatcher, SinkBinding};
use crate::error::LogManagerError;
use crate::channel::QueueModel;
use crate::rotation::{get_rotation_file, rotation_from_text, RotationPolicy};
use crate::severity::{get_log_level, level_from_text, Severity};

verus! {

/// The typed configuration of a log manager.
#[derive(Debug, Clone, Copy, PartialEq, Eq, Structural)]
pub struct Settings {
    pub level: Severity,
    pub rotation: RotationPolicy,
    /// Largest number of log files kept; 0 keeps them all.
    pub max_log_files: usize,
}

/// Reads a log manager's configuration: the level first, then the rotation.
/// Nothing is created on disk before this has succeeded.
pub fn resolve_settings(log_level: &str, rotation_file: &str, max_log_files: usize) -> (r: Result<
    Settings,
    LogManagerError,
>)
    ensures
        r == match (level_from_text(log_level@), rotation_from_text(rotation_file@)) {
            (None, _) => Err(LogManagerError::InvalidLogLevelFormat),
            (Some(_), None) => Err(LogManagerError::InvalidRotationFileFormat),
            (Some(level), Some(rotation)) => Ok(Settings { level, rotation, max_log_files }),
        },
{
    let level = match get_log_level(log_level) {
        Ok(l) => l,
        Err(e) => return Err(e),
    };
    let rotation = match get_rotation_file(rotation_file) {
        Ok(p) => p,
        Err(e) => return Err(e),
    };
    Ok(Settings { level, rotation, max_log_files })
}

/// The two sinks of a log manager, both filtered at `level`: first the
/// console (coloured), then the file (plain), each with a queue of
/// `capacity` records.
pub fn build_dispatcher(level: Severity, capacity: usize) -> (d: Dispatcher)
    ensures
        d.wf(),
        d.sinks@.len() == 2,
        d.sinks@[0].ansi,
        !d.sinks@[1].ansi,
        forall|i: int|
            0 <= i < 2 ==> {
                &&& (#[trigger] d.sinks@[i]).minimum == level
                &&& d.sinks@[i].queue.model() == (QueueModel { items: Seq::empty(), capacity: capacity as nat, dropped: 0, closed: false })
            },
{
    let mut sinks: Vec<SinkBinding> = Vec::new();
    sinks.push(SinkBinding::new(level, true, capacity));
    sinks.push(SinkBinding::new(level, false, capacity));
    Dispatcher { sinks }
}

} // verus!
