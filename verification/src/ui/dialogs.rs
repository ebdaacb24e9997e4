//! The confirmation dialogs: terminating a process, and clearing the list.
//!
//! Each dialog holds whether it is open and what it is about; confirming
//! gives the command to apply and closes it, cancelling only closes it.

use vstd::prelude::*;

use crate::i18n::{Key, LanguageSetting, format_n, t, text};
use crate::state::UiCmd;
use crate::state::target::TargetId;
use crate::text::{decimal, replace_all};

verus! {

/// The dialog that confirms the termination of a process.
pub struct TerminateConfirmDialog {
    pub open: bool,
    pub pid: u32,
    pub process_name: String,
    pub target_id: Option<TargetId>,
    pub start_time: Option<i64>,
}

impl Default for TerminateConfirmDialog {
    fn default() -> (d: TerminateConfirmDialog)
        ensures
            !d.open,
            d.pid == 0,
            d.process_name@.len() == 0,
            d.target_id is None,
            d.start_time is None,
    {
        TerminateConfirmDialog {
            open: false,
            pid: 0,
            process_name: String::new(),
            target_id: None,
            start_time: None,
        }
    }
}

impl TerminateConfirmDialog {
    /// Opens the dialog about the process `pid` named `name`, found holding
    /// the target `target_id`, started at `start_time`.
    pub fn open(&mut self, pid: u32, name: &str, target_id: TargetId, start_time: Option<i64>)
        ensures
            final(self).open,
            final(self).pid == pid,
            final(self).process_name@ == name@,
            final(self).target_id == Some(target_id),
            final(self).start_time == start_time,
    {
        self.open = true;
        self.pid = pid;
        self.process_name = String::from_str(name);
        self.target_id = Some(target_id);
        self.start_time = start_time;
    }

    /// The user confirmed: the dialog closes and, when it is about a target,
    /// gives the command that terminates the process.
    pub fn confirm(&mut self) -> (cmd: Option<UiCmd>)
        ensures
            !final(self).open,
            final(self).pid == old(self).pid,
            final(self).process_name == old(self).process_name,
            final(self).target_id == old(self).target_id,
            final(self).start_time == old(self).start_time,
            old(self).target_id is None ==> cmd is None,
            old(self).target_id matches Some(id) ==> (cmd matches Some(UiCmd::ConfirmTerminate {
                pid,
                process_name,
                target_id,
                start_time,
            }) && pid == old(self).pid && process_name@ == old(self).process_name@ && target_id == id
                && start_time == old(self).start_time),
    {
        self.open = false;
        match self.target_id {
            Some(target_id) => Some(
                UiCmd::ConfirmTerminate {
                    pid: self.pid,
                    process_name: self.process_name.clone(),
                    target_id,
                    start_time: self.start_time,
                },
            ),
            None => None,
        }
    }

    /// The user cancelled: the dialog closes and nothing else changes.
    pub fn cancel(&mut self)
        ensures
            !final(self).open,
            final(self).pid == old(self).pid,
            final(self).process_name == old(self).process_name,
            final(self).target_id == old(self).target_id,
            final(self).start_time == old(self).start_time,
    {
        self.open = false;
    }
}

/// The dialog that confirms clearing the list.
pub struct ClearAllDialog {
    pub open: bool,
    /// How many targets would be removed.
    pub count: usize,
}

impl Default for ClearAllDialog {
    fn default() -> (d: ClearAllDialog)
        ensures
            !d.open,
            d.count == 0,
    {
        ClearAllDialog { open: false, count: 0 }
    }
}

impl ClearAllDialog {
    /// The user asked to clear a list of `count` targets: the dialog opens
    /// when the list is not empty, and nothing happens when it is.
    pub fn request(&mut self, count: usize)
        ensures
            count > 0 ==> final(self).open && final(self).count == count,
            count == 0 ==> final(self).open == old(self).open && final(self).count == old(self).count,
    {
        if count > 0 {
            self.open = true;
            self.count = count;
        }
    }

    /// The question the dialog asks, with the number of targets.
    pub fn message(&self, setting: &LanguageSetting) -> (s: String)
        ensures
            s@ == replace_all(text(Key::DlgClearMessageFmt, setting.language()), "{N}"@, decimal(self.count as nat)),
    {
        format_n(t(setting, Key::DlgClearMessageFmt), self.count)
    }

    /// The user confirmed: the dialog closes and gives the confirmed
    /// clearing.
    pub fn confirm(&mut self) -> (cmd: UiCmd)
        ensures
            !final(self).open,
            final(self).count == old(self).count,
            cmd == (UiCmd::ClearAll { confirmed: true }),
    {
        self.open = false;
        UiCmd::ClearAll { confirmed: true }
    }

    /// The user cancelled: the dialog closes.
    pub fn cancel(&mut self)
        ensures
            !final(self).open,
            final(self).count == old(self).count,
    {
        self.open = false;
    }
}

} // verus!
