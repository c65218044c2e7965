use vstd::prelude::*;

verus! {

/// Everything that can stop a log manager from being set up.
#[derive(Debug, Clone, PartialEq, Eq)]
pub enum LogManagerError {
    InvalidLogLevelFormat,
    InvalidRotationFileFormat,
    BinPathNotFound(String),
    BinNameNotFound,
    DirectoryDataLocalNotFound,
    DirectoryCreationFailed(String),
    LogSubscriberFailed(String),
    RollingFileFailed(String),
}

} // verus!
