//! The error type shared by every fallible operation of the library.
use vstd::prelude::*;
use vstd::string::StringExecFns;

use crate::story::Id;

verus! {

/// Representation of a configuration error by its source.
#[derive(Clone, Debug)]
pub enum ConfigSource {
    /// Error caused by a file.
    File {
        /// The configuration file that caused the error.
        path: String,
        /// What the parser reported.
        message: String,
    },
    /// Error caused by the environment, with what the parser reported.
    Env(String),
}

/// The action that a [`TrackerFormat`](ErrorKind::TrackerFormat) error interrupted.
#[derive(Clone, Copy, Debug, PartialEq, Eq, Structural)]
pub enum Action {
    /// Indicates that a serialization of the tracker data was being done.
    Serializing,
    /// Indicates that a deserialization of the tracker data was being done.
    Deserializing,
}

/// The class of a failed I/O operation, as far as the library's decisions depend on it.
#[derive(Clone, Copy, Debug, PartialEq, Eq, Structural)]
pub enum IoErrorKind {
    /// The file or directory does not exist.
    NotFound,
    /// The operation lacked the necessary privileges.
    PermissionDenied,
    /// Any other failure.
    Other,
}

/// Why the response of a story lookup could not be turned into a story.
#[derive(Clone, Copy, Debug, PartialEq, Eq, Structural)]
pub enum StoryError {
    /// The remote service confirms that there is no story with the requested ID.
    InvalidId,
    /// The response does not match the expected schema.
    MalformedPayload,
    /// The remote service returned an error that this library does not know how to interpret.
    UnrecognizedApiError,
}

impl StoryError {
    /// The reason a lookup response could not be read as a story, given the error message
    /// that the response carries, if any: no message means a malformed payload, the message
    /// `Invalid story id` an ID without story, any other message an error not understood.
    pub fn classify(message: Option<&str>) -> (r: StoryError)
        ensures
            message is None ==> r == StoryError::MalformedPayload,
            message matches Some(m) && m@ == "Invalid story id"@ ==> r == StoryError::InvalidId,
            message matches Some(m) && m@ != "Invalid story id"@ ==> r
                == StoryError::UnrecognizedApiError,
    {
        match message {
            None => StoryError::MalformedPayload,
            Some(m) => {
                if m.to_owned() == String::from_str("Invalid story id") {
                    StoryError::InvalidId
                } else {
                    StoryError::UnrecognizedApiError
                }
            },
        }
    }
}

/// The different kinds of errors that [`TrackerError`] can be.
#[allow(inconsistent_fields)]
#[derive(Clone, Debug)]
pub enum ErrorKind {
    /// An error in an I/O operation.
    Io {
        /// The class of the failure.
        kind: IoErrorKind,
        /// What the operating system reported.
        message: String,
    },
    /// A transport-level failure of a request, with what the client reported.
    Request(String),
    /// An error while parsing a story lookup response.
    UnexpectedResponse {
        /// The story ID that caused the error.
        id: Id,
        /// The raw response that caused the error.
        response: String,
        /// The error being thrown.
        error: StoryError,
    },
    /// An attempt to compare two stories of different IDs.
    BadStoryComparison {
        /// The ID of the story doing the comparison.
        id: u32,
        /// The ID of the story being compared.
        other_id: u32,
    },
    /// An error while parsing a configuration source.
    ConfigParsing(ConfigSource),
    /// An error while (de)serializing the ledger of tracked stories.
    TrackerFormat {
        /// Path to the tracker file that caused the error, if relevant.
        path: Option<String>,
        /// The action that was being done when the error happened.
        action: Action,
        /// What the (de)serializer reported.
        error: String,
    },
    /// A download command that did not finish successfully: its exit code, or `None` when it
    /// was terminated by a signal.
    Execution {
        /// Exit code of the command, if it exited on its own.
        code: Option<i32>,
    },
    /// A custom error.
    Custom(String),
}

/// The error type for all errors present in the crate: a kind, and an optional context message.
#[derive(Clone, Debug)]
pub struct TrackerError {
    /// Additional context given to the error message.
    pub context: Option<String>,
    /// The kind of error.
    pub kind: ErrorKind,
}

impl TrackerError {
    /// Constructs a new [`TrackerError`] of a given kind, without context.
    pub fn with(kind: ErrorKind) -> (r: TrackerError)
        ensures
            r.kind == kind,
            r.context is None,
    {
        TrackerError { context: None, kind }
    }

    /// Gives additional context to the error message, replacing any earlier one.
    pub fn context(self, context: String) -> (r: TrackerError)
        ensures
            r.kind == self.kind,
            r.context == Some(context),
    {
        TrackerError { context: Some(context), kind: self.kind }
    }

    /// Constructs a [`TrackerError`] of kind [`Io`](ErrorKind::Io).
    pub fn io(kind: IoErrorKind, message: String) -> (r: TrackerError)
        ensures
            r.kind == (ErrorKind::Io { kind, message }),
            r.context is None,
    {
        TrackerError::with(ErrorKind::Io { kind, message })
    }

    /// Constructs a [`TrackerError`] of kind [`Request`](ErrorKind::Request).
    pub fn request(message: String) -> (r: TrackerError)
        ensures
            r.kind == ErrorKind::Request(message),
            r.context is None,
    {
        TrackerError::with(ErrorKind::Request(message))
    }

    /// Constructs a [`TrackerError`] of kind
    /// [`UnexpectedResponse`](ErrorKind::UnexpectedResponse).
    pub fn unexpected_response(err: StoryError, id: Id, response: String) -> (r: TrackerError)
        ensures
            r.kind == (ErrorKind::UnexpectedResponse { id, response, error: err }),
            r.context is None,
    {
        TrackerError::with(ErrorKind::UnexpectedResponse { id, response, error: err })
    }

    /// Constructs a [`TrackerError`] of kind
    /// [`BadStoryComparison`](ErrorKind::BadStoryComparison).
    pub fn story_comparison(id: u32, other_id: u32) -> (r: TrackerError)
        ensures
            r.kind == (ErrorKind::BadStoryComparison { id, other_id }),
            r.context is None,
    {
        TrackerError::with(ErrorKind::BadStoryComparison { id, other_id })
    }

    /// Constructs a [`TrackerError`] of kind [`ConfigParsing`](ErrorKind::ConfigParsing).
    pub fn config_parsing(source: ConfigSource) -> (r: TrackerError)
        ensures
            r.kind == ErrorKind::ConfigParsing(source),
            r.context is None,
    {
        TrackerError::with(ErrorKind::ConfigParsing(source))
    }

    /// Constructs a [`TrackerError`] of kind [`TrackerFormat`](ErrorKind::TrackerFormat).
    pub fn tracker_format(path: Option<String>, error: String, action: Action) -> (r:
        TrackerError)
        ensures
            r.kind == (ErrorKind::TrackerFormat { path, action, error }),
            r.context is None,
    {
        TrackerError::with(ErrorKind::TrackerFormat { path, action, error })
    }

    /// Constructs a [`TrackerError`] of kind [`Execution`](ErrorKind::Execution).
    pub fn execution(code: Option<i32>) -> (r: TrackerError)
        ensures
            r.kind == (ErrorKind::Execution { code }),
            r.context is None,
    {
        TrackerError::with(ErrorKind::Execution { code })
    }

    /// Constructs a [`TrackerError`] of kind [`Custom`](ErrorKind::Custom).
    pub fn custom(message: String) -> (r: TrackerError)
        ensures
            r.kind == ErrorKind::Custom(message),
            r.context is None,
    {
        TrackerError::with(ErrorKind::Custom(message))
    }

    /// Whether the error is an I/O failure caused by missing privileges.
    pub fn is_permission_error(&self) -> (r: bool)
        ensures
            r <==> (self.kind matches ErrorKind::Io { kind: IoErrorKind::PermissionDenied, .. }),
    {
        match &self.kind {
            ErrorKind::Io { kind: IoErrorKind::PermissionDenied, .. } => true,
            _ => false,
        }
    }

    /// Whether the error is an I/O failure caused by a missing file.
    pub fn is_not_found(&self) -> (r: bool)
        ensures
            r <==> (self.kind matches ErrorKind::Io { kind: IoErrorKind::NotFound, .. }),
    {
        match &self.kind {
            ErrorKind::Io { kind: IoErrorKind::NotFound, .. } => true,
            _ => false,
        }
    }
}

/// The outcome of a download command: success, or an
/// [`Execution`](ErrorKind::Execution) error carrying the exit code (`None` for a signal).
pub fn command_outcome(success: bool, code: Option<i32>) -> (r: Result<()>)
    ensures
        success <==> r is Ok,
        r matches Err(e) ==> e.kind == (ErrorKind::Execution { code }),
{
    if success {
        Ok(())
    } else {
        Err(TrackerError::execution(code))
    }
}

/// An alias of [`Result`] for all of its instances across the crate.
pub type Result<T> = core::result::Result<T, TrackerError>;

} // verus!
