//! Tracking of serialized stories hosted on Fimfiction: a ledger of tracked stories, the
//! classification of updates between two snapshots of a story, and the decision logic of the
//! "track" and "download" operations.
//!
//! Everything that talks to the network, the terminal or the file system lives outside this
//! library; the operations are exposed as state machines that ask their caller to perform that
//! outside work and report back.

pub mod api;
pub mod args;
pub mod command;
pub mod config;
pub mod download;
pub mod errors;
pub mod ledger;
pub mod listener;
pub mod listing;
pub mod story;
pub mod text;
pub mod track;

pub use api::{StoryResponse, StoryStatus};
pub use config::{
    default_user_config_file, default_user_tracker_file, Config, ConfigBuilder, DownloadFormat,
    SensibilityLevel, DEFAULT_ENVIRONMENT_PREFIX,
};
pub use errors::{Result, TrackerError};
pub use ledger::StoryData;
pub use story::{Id, Story, StoryUpdate};
