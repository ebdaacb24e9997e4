//! The targets that the inspector watches: their identity, kind, status and
//! the processes last found holding them.

use vstd::prelude::*;

use crate::detector::ProcessRecord;

verus! {

/// `std::time::Instant`, an opaque point on the monotonic clock: when a
/// scan completed.
#[verifier::external_type_specification]
#[verifier::external_body]
pub struct ExInstant(std::time::Instant);

/// The stable identity of a target, handed out in increasing order.
#[derive(Copy, Clone, PartialEq, Eq, Structural, PartialOrd, Ord, Hash, Debug)]
pub struct TargetId(pub u64);

/// Whether a target is a single file or a folder (whose direct children are
/// watched too, without going deeper).
#[derive(Copy, Clone, Debug, PartialEq, Eq, Structural)]
pub enum TargetKind {
    File,
    Directory,
}

/// Where a target stands in its scans.
///
/// `Pending` until the first scan, `Scanning` while one runs; then `Idle`
/// when nothing holds it, `Locked { count }` when `count` processes do,
/// `Failed { reason }` when the scan failed and `AccessDenied` when the
/// Restart Manager refused it.
#[derive(Clone, Debug)]
pub enum TargetStatus {
    Pending,
    Scanning,
    Idle,
    Locked { count: usize },
    Failed { reason: String },
    AccessDenied,
}

/// One watched file or folder.
#[derive(Clone, Debug)]
pub struct TargetItem {
    pub id: TargetId,
    pub path: String,
    pub kind: TargetKind,
    pub status: TargetStatus,
    /// The processes found holding the target by the last completed scan.
    pub processes: Vec<ProcessRecord>,
    /// When the last scan completed; `None` before the first.
    pub last_scanned_at: Option<std::time::Instant>,
}

} // verus!
