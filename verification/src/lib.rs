//! Core of a daemon that watches a directory tree through fanotify and
//! sets owner, group and mode of whatever appears in it.
//!
//! The crate performs no system call. It decodes the kernel's event records,
//! decides which attributes a path should get, and judges the results of the
//! system calls that the surrounding program makes.

pub mod config;
pub mod driver;
pub mod fanotify;
pub mod permission;
pub mod utils;
