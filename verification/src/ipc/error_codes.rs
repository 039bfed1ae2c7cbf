//! The machine-readable codes of error responses.

use vstd::prelude::*;

verus! {

/// The request names a backup set that is not configured.
pub const UNKNOWN_SET: &'static str = "UnknownSet";

/// The backup could not be started.
pub const BACKUP_FAILED: &'static str = "BackupFailed";

/// The engine failed, or what it printed could not be read.
pub const RESTIC_ERROR: &'static str = "ResticError";

/// The repository could not be mounted.
pub const MOUNT_FAILED: &'static str = "MountFailed";

/// The set is not mounted.
pub const NOT_MOUNTED: &'static str = "NotMounted";

/// The daemon cannot take the request now.
pub const DAEMON_BUSY: &'static str = "DaemonBusy";

/// The line is no request.
pub const INVALID_REQUEST: &'static str = "InvalidRequest";

} // verus!
