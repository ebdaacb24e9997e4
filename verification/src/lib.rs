//! The verified core of File Lock Inspector: finding the processes that
//! hold a file or a folder, deciding which of them are system processes,
//! keeping the list of watched targets, scheduling their scans, and
//! terminating a process safely.

pub mod text;
pub mod i18n;
pub mod error;
pub mod detector;
pub mod sys_classifier;
pub mod state;
pub mod monitor;
pub mod process_info;
pub mod terminator;
pub mod elevation;
pub mod logging;
pub mod ui;
