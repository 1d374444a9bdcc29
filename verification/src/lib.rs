//! Core of an application's check for its own updates.
//!
//! The crate decides whether a published release is newer than the running
//! application. It performs no I/O itself: the host sends the request and
//! reports what came back, and every decision is taken here.

pub mod check;
pub mod document;
pub mod order;
pub mod version;

pub use check::{
    check_for_update, decide_update, read_release, release_index_url, status_is_success,
    strip_version_prefix, ErrorReason, Reply, Step, UpdateInfo, GITHUB_REPO,
};
pub use version::{is_newer_version, parse_version};
