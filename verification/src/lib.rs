//! The decisions of an inotify binding, apart from the system calls.
//!
//! Every operation on a notification channel is one kernel call. This crate
//! says what is handed to each call and what its answer means; a driver makes
//! the call in between.

pub mod cstr;
pub mod error;
pub mod event;
pub mod raw;
pub mod wrapper;
