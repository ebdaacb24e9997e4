//! The state of the application as the interface shows it.

use vstd::prelude::*;
use std::collections::BTreeMap;

use crate::state::target::{TargetId, TargetItem};

verus! {

/// Whether the application runs with administrator rights.
#[derive(Debug, Clone, Copy, PartialEq, Eq, Structural)]
pub enum PrivilegeLevel {
    Standard,
    Elevated,
}

/// A message shown briefly to the user.
#[derive(Debug, Clone)]
pub struct UiToast {
    pub message: String,
    pub is_error: bool,
}

impl UiToast {
    /// An informational message.
    pub fn info(msg: &str) -> (t: UiToast)
        ensures
            t.message@ == msg@,
            !t.is_error,
    {
        UiToast { message: String::from_str(msg), is_error: false }
    }

    /// An error message.
    pub fn error(msg: &str) -> (t: UiToast)
        ensures
            t.message@ == msg@,
            t.is_error,
    {
        UiToast { message: String::from_str(msg), is_error: true }
    }
}

/// The application state: the watched targets, keyed by the number of their
/// `TargetId`, and the settings and messages of the interface.
pub struct AppState {
    pub targets: BTreeMap<u64, TargetItem>,
    /// The number of the next `TargetId` to hand out.
    pub next_id: u64,
    /// The polling interval in milliseconds (1000, 2000, 5000 or 10000).
    pub polling_interval_ms: u32,
    pub privilege: PrivilegeLevel,
    pub windows_supported: bool,
    /// The message shown to the user, if any.
    pub last_error: Option<UiToast>,
}

impl AppState {
    /// The state is consistent: each target is stored under the number of its
    /// own id, every id is below `next_id`, and no two targets share a path.
    pub open spec fn wf(&self) -> bool {
        &&& forall|k: u64| #[trigger]
            self.targets@.contains_key(k) ==> self.targets@[k].id.0 == k && k < self.next_id
        &&& forall|k1: u64, k2: u64|
            #[trigger] self.targets@.contains_key(k1) && #[trigger] self.targets@.contains_key(k2)
                && k1 != k2 ==> self.targets@[k1].path@ != self.targets@[k2].path@
    }

    /// An empty state: no targets, ids from 1, a two-second interval,
    /// standard rights, a supported Windows, no message.
    pub fn new_default() -> (s: AppState)
        ensures
            s.targets@ == Map::<u64, TargetItem>::empty(),
            s.next_id == 1,
            s.polling_interval_ms == 2000,
            s.privilege == PrivilegeLevel::Standard,
            s.windows_supported,
            s.last_error is None,
            s.wf(),
    {
        AppState {
            targets: BTreeMap::new(),
            next_id: 1,
            polling_interval_ms: 2000,
            privilege: PrivilegeLevel::Standard,
            windows_supported: true,
            last_error: None,
        }
    }

    /// Hands out the next target id.
    pub fn next_target_id(&mut self) -> (id: TargetId)
        requires
            old(self).next_id < u64::MAX,
        ensures
            id.0 == old(self).next_id,
            final(self).next_id == old(self).next_id + 1,
            final(self).targets@ == old(self).targets@,
            final(self).polling_interval_ms == old(self).polling_interval_ms,
            final(self).privilege == old(self).privilege,
            final(self).windows_supported == old(self).windows_supported,
            final(self).last_error == old(self).last_error,
            old(self).wf() ==> final(self).wf(),
    {
        let id = TargetId(self.next_id);
        self.next_id = self.next_id + 1;
        id
    }
}

} // verus!
