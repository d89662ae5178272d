//! Hooks through which a requester reports the progress of a delivery.
use vstd::prelude::*;

use crate::story::Story;

verus! {

/// Listener for requesters in the delivery progress.
pub trait ProgressListener {
    /// Called for each chunk of bytes written into `filepath`, where `bytes` is the total
    /// amount of bytes downloaded so far. The first call, before any byte, reports `0`.
    fn download_progress(&self, bytes: usize, filepath: &str);

    /// Called once a direct download of a story has finished.
    fn successfull_client_download(&self, story: &Story);

    /// Called just before the execution of a download command.
    fn before_execute_command(&self, story: &Story);

    /// Called once a download command finished successfully.
    fn successfull_command_execution(&self, story: &Story);
}

/// A [`ProgressListener`] that does nothing.
pub struct SilentListener;

impl ProgressListener for SilentListener {
    fn download_progress(&self, bytes: usize, filepath: &str) {
    }

    fn successfull_client_download(&self, story: &Story) {
    }

    fn before_execute_command(&self, story: &Story) {
    }

    fn successfull_command_execution(&self, story: &Story) {
    }
}

} // verus!
