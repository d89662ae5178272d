//! Configuration values consumed by the library.
use vstd::prelude::*;
use vstd::string::StringExecFns;

use directories::{ProjectDirs, UserDirs};

verus! {

/// Default prefix for configuration by environment variables.
pub const DEFAULT_ENVIRONMENT_PREFIX: &'static str = "FFT";

/// Name of the application in the per-user directories of the platform.
pub const APPLICATION_NAME: &'static str = "fimfic-tracker";

/// Relies on `directories::ProjectDirs::from` and `ProjectDirs::config_local_dir`: the
/// per-user local configuration directory of an application, where the platform has one.
#[verifier::external_body]
fn project_config_local_dir(application: &str) -> (r: Option<String>) {
    ProjectDirs::from("", "", application).map(
        |dirs| dirs.config_local_dir().to_string_lossy().into_owned(),
    )
}

/// Relies on `directories::ProjectDirs::from` and `ProjectDirs::data_local_dir`: the per-user
/// local data directory of an application, where the platform has one.
#[verifier::external_body]
fn project_data_local_dir(application: &str) -> (r: Option<String>) {
    ProjectDirs::from("", "", application).map(
        |dirs| dirs.data_local_dir().to_string_lossy().into_owned(),
    )
}

/// Relies on `directories::UserDirs::download_dir`: the user's download directory, where the
/// platform has one.
#[verifier::external_body]
fn user_download_dir() -> (r: Option<String>) {
    UserDirs::new().and_then(|dirs| dirs.download_dir().map(|p| p.to_string_lossy().into_owned()))
}

/// Whether `s` ends with `t`.
pub open spec fn ends_with(s: Seq<char>, t: Seq<char>) -> bool {
    s.len() >= t.len() && s.skip(s.len() - t.len()) == t
}

/// A plain file name: lowercase letters, digits, `.` and `-`, so never an absolute path nor a
/// path with a drive or separator.
pub open spec fn is_plain_file_name(name: Seq<char>) -> bool {
    &&& name.len() > 0
    &&& forall|i: int|
        0 <= i < name.len() ==> ('a' <= #[trigger] name[i] <= 'z') || ('0' <= name[i] <= '9')
            || name[i] == '.' || name[i] == '-'
}

/// Relies on `Path::join`: joining a relative file name appends it, after a separator, to the
/// directory, so the path ends with the name.
#[verifier::external_body]
fn path_join(dir: &str, name: &str) -> (r: String)
    ensures
        is_plain_file_name(name@) ==> ends_with(r@, name@),
{
    std::path::Path::new(dir).join(name).to_string_lossy().into_owned()
}

/// Relies on `shellexpand::tilde`: a leading `~` is replaced by the home directory; a path
/// that does not start with `~` is returned as it is.
#[verifier::external_body]
fn expand_tilde(path: &str) -> (r: String)
    ensures
        path@.len() == 0 || path@[0] != '~' ==> r@ == path@,
{
    shellexpand::tilde(path).into_owned()
}

/// Path to the default location of the user's `config.toml` file, in the per-user local
/// configuration directory; `None` where the platform has no such directory.
pub fn default_user_config_file() -> (r: Option<String>)
    ensures
        r matches Some(p) ==> ends_with(p@, "config.toml"@),
{
    proof {
        reveal_strlit("config.toml");
    }
    match project_config_local_dir(APPLICATION_NAME) {
        Some(dir) => Some(path_join(&dir, "config.toml")),
        None => None,
    }
}

/// Path to the default location of the user's `track-data.json` file, in the per-user local
/// data directory; `None` where the platform has no such directory.
pub fn default_user_tracker_file() -> (r: Option<String>)
    ensures
        r matches Some(p) ==> ends_with(p@, "track-data.json"@),
{
    proof {
        reveal_strlit("track-data.json");
    }
    match project_data_local_dir(APPLICATION_NAME) {
        Some(dir) => Some(path_join(&dir, "track-data.json")),
        None => None,
    }
}

/// The available story formats that Fimfiction provides.
#[derive(Clone, Copy, Debug, PartialEq, Eq, Structural)]
pub enum DownloadFormat {
    /// Story in HTML format.
    HTML,
    /// Story in EPUB format.
    EPUB,
    /// Story in plain text format.
    TXT,
}

/// The name of a format, as used in download URLs and file extensions.
pub open spec fn format_name(f: DownloadFormat) -> Seq<char> {
    match f {
        DownloadFormat::HTML => seq!['h', 't', 'm', 'l'],
        DownloadFormat::EPUB => seq!['e', 'p', 'u', 'b'],
        DownloadFormat::TXT => seq!['t', 'x', 't'],
    }
}

impl DownloadFormat {
    /// The name of the format: `html`, `epub` or `txt`.
    pub fn name(&self) -> (r: &'static str)
        ensures
            r@ == format_name(*self),
    {
        proof {
            reveal_strlit("html");
            reveal_strlit("epub");
            reveal_strlit("txt");
            assert("html"@ =~= format_name(DownloadFormat::HTML));
            assert("epub"@ =~= format_name(DownloadFormat::EPUB));
            assert("txt"@ =~= format_name(DownloadFormat::TXT));
        }
        match self {
            DownloadFormat::HTML => "html",
            DownloadFormat::EPUB => "epub",
            DownloadFormat::TXT => "txt",
        }
    }

    /// Decodes a format from its name; other names are rejected.
    pub fn from_name(value: &str) -> (r: Option<DownloadFormat>)
        ensures
            r matches Some(f) ==> format_name(f) == value@,
            r is None ==> forall|f: DownloadFormat| format_name(f) != value@,
    {
        proof {
            reveal_strlit("html");
            reveal_strlit("epub");
            reveal_strlit("txt");
            assert("html"@ =~= format_name(DownloadFormat::HTML));
            assert("epub"@ =~= format_name(DownloadFormat::EPUB));
            assert("txt"@ =~= format_name(DownloadFormat::TXT));
        }
        let v = value.to_owned();
        if v == String::from_str("html") {
            Some(DownloadFormat::HTML)
        } else if v == String::from_str("epub") {
            Some(DownloadFormat::EPUB)
        } else if v == String::from_str("txt") {
            Some(DownloadFormat::TXT)
        } else {
            proof {
                assert forall|f: DownloadFormat| format_name(f) != value@ by {
                    match f {
                        DownloadFormat::HTML => {},
                        DownloadFormat::EPUB => {},
                        DownloadFormat::TXT => {},
                    }
                }
            }
            None
        }
    }
}

/// The sensitivity to differences between two snapshots of a story.
///
/// The conditions of one level are present in the ones above it, so the levels are totally
/// ordered: `OnlyChapters < IncludeWords < Anything`.
#[derive(Clone, Copy, Debug, PartialEq, Eq, Structural)]
pub enum SensibilityLevel {
    /// Only a different amount of chapters is an update.
    OnlyChapters,
    /// In addition to the `OnlyChapters` condition, takes into account the amount of words.
    IncludeWords,
    /// In addition to the `IncludeWords` conditions, considers the update date too.
    Anything,
}

/// The position of a level in the order of levels.
pub open spec fn level_rank(l: SensibilityLevel) -> u8 {
    match l {
        SensibilityLevel::OnlyChapters => 0,
        SensibilityLevel::IncludeWords => 1,
        SensibilityLevel::Anything => 2,
    }
}

impl SensibilityLevel {
    /// The position of the level: `0` OnlyChapters, `1` IncludeWords, `2` Anything.
    pub fn rank(&self) -> (r: u8)
        ensures
            r == level_rank(*self),
    {
        match self {
            SensibilityLevel::OnlyChapters => 0,
            SensibilityLevel::IncludeWords => 1,
            SensibilityLevel::Anything => 2,
        }
    }

    /// Decodes a level from its position; values outside `0..=2` are rejected.
    pub fn from_rank(value: i64) -> (r: Option<SensibilityLevel>)
        ensures
            0 <= value <= 2 <==> r is Some,
            r matches Some(l) ==> level_rank(l) == value,
    {
        match value {
            0 => Some(SensibilityLevel::OnlyChapters),
            1 => Some(SensibilityLevel::IncludeWords),
            2 => Some(SensibilityLevel::Anything),
            _ => None,
        }
    }
}

impl PartialOrd for SensibilityLevel {
    fn partial_cmp(&self, other: &SensibilityLevel) -> (r: Option<core::cmp::Ordering>) {
        let a = self.rank();
        let b = other.rank();
        if a < b {
            Some(core::cmp::Ordering::Less)
        } else if a == b {
            Some(core::cmp::Ordering::Equal)
        } else {
            Some(core::cmp::Ordering::Greater)
        }
    }
}

impl vstd::std_specs::cmp::PartialOrdSpecImpl for SensibilityLevel {
    open spec fn obeys_partial_cmp_spec() -> bool {
        true
    }

    open spec fn partial_cmp_spec(&self, other: &SensibilityLevel) -> Option<
        core::cmp::Ordering,
    > {
        if level_rank(*self) < level_rank(*other) {
            Some(core::cmp::Ordering::Less)
        } else if level_rank(*self) == level_rank(*other) {
            Some(core::cmp::Ordering::Equal)
        } else {
            Some(core::cmp::Ordering::Greater)
        }
    }
}


/// Used to construct [`Config`]: every value is optional, and an absent one takes the
/// default of [`Config`].
#[derive(Clone, Debug)]
pub struct ConfigBuilder {
    /// The download directory.
    pub download_dir: Option<String>,
    /// The tracker file.
    pub tracker_file: Option<String>,
    /// The download format.
    pub download_format: Option<DownloadFormat>,
    /// The seconds to wait between downloads.
    pub download_delay: Option<u64>,
    /// The sensitivity level.
    pub sensibility_level: Option<SensibilityLevel>,
    /// The download command template.
    pub exec_command: Option<String>,
    /// Whether the download command runs silently.
    pub quiet: Option<bool>,
}

/// A field of `other` where it is set, the one of `base` otherwise.
pub open spec fn overlay<T>(base: Option<T>, other: Option<T>) -> Option<T> {
    if other is Some {
        other
    } else {
        base
    }
}

impl ConfigBuilder {
    /// Constructs a new [`ConfigBuilder`] that results in [`Config`] with its default values.
    pub fn new() -> (r: ConfigBuilder)
        ensures
            r.download_dir is None,
            r.tracker_file is None,
            r.download_format is None,
            r.download_delay is None,
            r.sensibility_level is None,
            r.exec_command is None,
            r.quiet is None,
    {
        ConfigBuilder {
            download_dir: None,
            tracker_file: None,
            download_format: None,
            download_delay: None,
            sensibility_level: None,
            exec_command: None,
            quiet: None,
        }
    }

    /// Sets the value of `download_dir`.
    pub fn download_dir(self, directory: &str) -> (r: ConfigBuilder)
        ensures
            r == (ConfigBuilder { download_dir: r.download_dir, ..self }),
            r.download_dir matches Some(d) && d@ == directory@,
    {
        ConfigBuilder { download_dir: Some(directory.to_owned()), ..self }
    }

    /// Sets the value of `tracker_file`.
    pub fn tracker_file(self, filename: &str) -> (r: ConfigBuilder)
        ensures
            r == (ConfigBuilder { tracker_file: r.tracker_file, ..self }),
            r.tracker_file matches Some(f) && f@ == filename@,
    {
        ConfigBuilder { tracker_file: Some(filename.to_owned()), ..self }
    }

    /// Sets the value of `download_format`.
    pub fn download_format(self, format: DownloadFormat) -> (r: ConfigBuilder)
        ensures
            r == (ConfigBuilder { download_format: Some(format), ..self }),
    {
        ConfigBuilder { download_format: Some(format), ..self }
    }

    /// Sets the value of `download_delay`.
    pub fn download_delay(self, delay: u64) -> (r: ConfigBuilder)
        ensures
            r == (ConfigBuilder { download_delay: Some(delay), ..self }),
    {
        ConfigBuilder { download_delay: Some(delay), ..self }
    }

    /// Sets the value of `sensibility_level`.
    pub fn sensibility_level(self, sensibility: SensibilityLevel) -> (r: ConfigBuilder)
        ensures
            r == (ConfigBuilder { sensibility_level: Some(sensibility), ..self }),
    {
        ConfigBuilder { sensibility_level: Some(sensibility), ..self }
    }

    /// Sets the value of `exec_command`.
    pub fn exec_command(self, command: &str) -> (r: ConfigBuilder)
        ensures
            r == (ConfigBuilder { exec_command: r.exec_command, ..self }),
            r.exec_command matches Some(e) && e@ == command@,
    {
        ConfigBuilder { exec_command: Some(command.to_owned()), ..self }
    }

    /// Sets the value of `quiet`.
    pub fn quiet(self, quiet: bool) -> (r: ConfigBuilder)
        ensures
            r == (ConfigBuilder { quiet: Some(quiet), ..self }),
    {
        ConfigBuilder { quiet: Some(quiet), ..self }
    }

    /// Brings the values that are set in `other` into `self`, overwriting them.
    pub fn merge(self, other: ConfigBuilder) -> (r: ConfigBuilder)
        ensures
            r.download_dir == overlay(self.download_dir, other.download_dir),
            r.tracker_file == overlay(self.tracker_file, other.tracker_file),
            r.download_format == overlay(self.download_format, other.download_format),
            r.download_delay == overlay(self.download_delay, other.download_delay),
            r.sensibility_level == overlay(self.sensibility_level, other.sensibility_level),
            r.exec_command == overlay(self.exec_command, other.exec_command),
            r.quiet == overlay(self.quiet, other.quiet),
    {
        ConfigBuilder {
            download_dir: if other.download_dir.is_some() {
                other.download_dir
            } else {
                self.download_dir
            },
            tracker_file: if other.tracker_file.is_some() {
                other.tracker_file
            } else {
                self.tracker_file
            },
            download_format: if other.download_format.is_some() {
                other.download_format
            } else {
                self.download_format
            },
            download_delay: if other.download_delay.is_some() {
                other.download_delay
            } else {
                self.download_delay
            },
            sensibility_level: if other.sensibility_level.is_some() {
                other.sensibility_level
            } else {
                self.sensibility_level
            },
            exec_command: if other.exec_command.is_some() {
                other.exec_command
            } else {
                self.exec_command
            },
            quiet: if other.quiet.is_some() {
                other.quiet
            } else {
                self.quiet
            },
        }
    }
}

/// Resolved configuration values, meant to be used read-only.
#[derive(Clone, Debug, PartialEq)]
pub struct Config {
    /// Path to the story download directory, with a leading `~` expanded.
    ///
    /// Defaults to the user's download directory (the current directory where the platform
    /// has none).
    pub download_dir: String,
    /// Path of the tracker file, with a leading `~` expanded.
    ///
    /// Defaults to [`default_user_tracker_file()`] (`track-data.json` in the current
    /// directory where the platform has no data directory).
    pub tracker_file: String,
    /// The format in which to download the stories. Defaults to [`DownloadFormat::HTML`].
    pub download_format: DownloadFormat,
    /// The seconds to wait between each download. Defaults to `5`.
    pub download_delay: u64,
    /// The level of differences that count as an update. Defaults to
    /// [`SensibilityLevel::OnlyChapters`].
    pub sensibility_level: SensibilityLevel,
    /// If set, a command executed for each download instead of fetching the story directly.
    /// Defaults to `None`.
    pub exec_command: Option<String>,
    /// Whether to suppress the output of the command defined in `exec_command`. Defaults to `false`.
    pub quiet: bool,
}

/// What a resolved path option becomes, given the value that it had before: an unset or empty
/// option keeps that value, a path that does not start with `~` is taken as it is.
pub open spec fn resolved_path(option: Option<String>, before: String, after: String) -> bool {
    match option {
        Some(p) => if p@.len() == 0 {
            after == before
        } else if p@[0] != '~' {
            after@ == p@
        } else {
            true
        },
        None => after == before,
    }
}

impl Config {
    /// Whether a blank separator line is emitted after each pause between deliveries: only
    /// when a download command is set and its output is not suppressed.
    pub fn use_separator(&self) -> (r: bool)
        ensures
            r <==> (self.exec_command is Some && !self.quiet),
    {
        self.exec_command.is_some() && !self.quiet
    }

    /// Applies the values set in `builder` onto `self`. Paths get a leading `~` expanded, and
    /// an empty path or command leaves the value of `self` in place.
    pub fn apply(self, builder: ConfigBuilder) -> (r: Config)
        ensures
            resolved_path(builder.download_dir, self.download_dir, r.download_dir),
            resolved_path(builder.tracker_file, self.tracker_file, r.tracker_file),
            r.download_format == (match builder.download_format {
                Some(f) => f,
                None => self.download_format,
            }),
            r.download_delay == (match builder.download_delay {
                Some(d) => d,
                None => self.download_delay,
            }),
            r.sensibility_level == (match builder.sensibility_level {
                Some(l) => l,
                None => self.sensibility_level,
            }),
            r.exec_command == (match builder.exec_command {
                Some(e) => if e@.len() == 0 {
                    self.exec_command
                } else {
                    Some(e)
                },
                None => self.exec_command,
            }),
            r.quiet == (match builder.quiet {
                Some(q) => q,
                None => self.quiet,
            }),
    {
        let mut config = self;
        if let Some(path) = builder.download_dir {
            if !path.as_str().is_empty() {
                config.download_dir = expand_tilde(path.as_str());
            }
        }
        if let Some(path) = builder.tracker_file {
            if !path.as_str().is_empty() {
                config.tracker_file = expand_tilde(path.as_str());
            }
        }
        if let Some(format) = builder.download_format {
            config.download_format = format;
        }
        if let Some(delay) = builder.download_delay {
            config.download_delay = delay;
        }
        if let Some(level) = builder.sensibility_level {
            config.sensibility_level = level;
        }
        if let Some(command) = builder.exec_command {
            if !command.as_str().is_empty() {
                config.exec_command = Some(command);
            }
        }
        if let Some(quiet) = builder.quiet {
            config.quiet = quiet;
        }
        config
    }
}

impl Default for Config {
    fn default() -> (r: Config)
        ensures
            r.download_format == DownloadFormat::HTML,
            r.download_delay == 5,
            r.sensibility_level == SensibilityLevel::OnlyChapters,
            r.exec_command is None,
            !r.quiet,
    {
        let download_dir = match user_download_dir() {
            Some(dir) => dir,
            None => String::from_str("."),
        };
        let tracker_file = match default_user_tracker_file() {
            Some(file) => file,
            None => String::from_str("track-data.json"),
        };
        Config {
            download_dir,
            tracker_file,
            download_format: DownloadFormat::HTML,
            download_delay: 5,
            sensibility_level: SensibilityLevel::OnlyChapters,
            exec_command: None,
            quiet: false,
        }
    }
}

impl From<ConfigBuilder> for Config {
    /// The default configuration with the values set in `builder` applied.
    fn from(builder: ConfigBuilder) -> (r: Config)
        ensures
            builder.download_dir is Some && builder.download_dir->0@.len() > 0 && builder.download_dir->0@[0]
                != '~' ==> r.download_dir@ == builder.download_dir->0@,
            builder.tracker_file is Some && builder.tracker_file->0@.len() > 0 && builder.tracker_file->0@[0]
                != '~' ==> r.tracker_file@ == builder.tracker_file->0@,
            r.download_format == (match builder.download_format {
                Some(f) => f,
                None => DownloadFormat::HTML,
            }),
            r.download_delay == (match builder.download_delay {
                Some(d) => d,
                None => 5,
            }),
            r.sensibility_level == (match builder.sensibility_level {
                Some(l) => l,
                None => SensibilityLevel::OnlyChapters,
            }),
            r.exec_command == (match builder.exec_command {
                Some(e) => if e@.len() == 0 {
                    None
                } else {
                    Some(e)
                },
                None => None,
            }),
            r.quiet == (match builder.quiet {
                Some(q) => q,
                None => false,
            }),
    {
        Config::default().apply(builder)
    }
}

impl vstd::std_specs::convert::FromSpecImpl<ConfigBuilder> for Config {
    open spec fn obeys_from_spec() -> bool {
        false
    }

    open spec fn from_spec(v: ConfigBuilder) -> Config {
        arbitrary()
    }
}

} // verus!
