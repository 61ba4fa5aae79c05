//! Configuration: the settings file, and how a setting is decided from the command line, the
//! file and the built-in defaults.
//!
//! Precedence is `flag > file > default`. Nothing here reads the environment, a file or a command
//! line: what was given is handed in.

pub mod choices;
pub mod file;

pub use file::{
    ConfigFile, Daemon, Output, OutputMode, Quality, ReleaseAfterPause, SessionStoreKind, Tidal,
};

use crate::engine::types::copied_text;
use crate::text::{ends_with, joined};
use crate::tidal::AudioQuality;
use crate::time::Duration;
use vstd::prelude::*;

verus! {

/// The name of the config file.
pub const CONFIG_FILE: &'static str = "config.toml";

/// The environment variable that names a config file to use instead of the default one.
pub const CONFIG_ENV: &'static str = "PHONIA_CONFIG";

/// Where the config file to read comes from, which decides what a missing file means.
#[derive(Debug, Clone, PartialEq, Eq)]
pub enum ConfigSource {
    /// Named on the command line or in the environment: it has to exist.
    Explicit(String),
    /// The usual place: absent is fine, it just means "all defaults".
    Default(String),
}

impl ConfigSource {
    /// The path of the file.
    pub open spec fn spec_path(self) -> Seq<char> {
        match self {
            ConfigSource::Explicit(path) => path@,
            ConfigSource::Default(path) => path@,
        }
    }

    /// The path of the file.
    pub fn path(&self) -> (r: &str)
        ensures
            r@ == self.spec_path(),
    {
        match self {
            ConfigSource::Explicit(path) => path.as_str(),
            ConfigSource::Default(path) => path.as_str(),
        }
    }
}

/// The path of `name` in the directory `dir`.
pub open spec fn path_in(dir: Seq<char>, name: Seq<char>) -> Seq<char> {
    if dir.len() == 0 || "/"@.is_suffix_of(dir) {
        dir + name
    } else {
        dir + "/"@ + name
    }
}

/// The path of `name`, which is relative, in the directory `dir`.
pub fn join_path(dir: &str, name: &str) -> (r: String)
    ensures
        r@ == path_in(dir@, name@),
{
    if dir.is_empty() || ends_with(dir, "/") {
        joined(dir, name)
    } else {
        joined(joined(dir, "/").as_str(), name)
    }
}

/// Picks the config file: the one named on the command line, else the one in the environment
/// variable (an empty one counts as unset), else the default place.
pub fn discover(flag: Option<&str>, env: Option<&str>, dir: Option<&str>) -> (r: Option<
    ConfigSource,
>)
    ensures
        match (flag, env, dir) {
            (Some(path), _, _) => r matches Some(ConfigSource::Explicit(p)) && p@ == path@,
            (None, Some(path), _) if path@.len() > 0 => r matches Some(ConfigSource::Explicit(p))
                && p@ == path@,
            (None, _, Some(dir)) => r matches Some(ConfigSource::Default(p)) && p@ == path_in(
                dir@,
                CONFIG_FILE@,
            ),
            (None, _, None) => r is None,
        },
{
    match flag {
        Some(path) => {
            return Some(ConfigSource::Explicit(path.to_owned()));
        },
        None => {},
    }
    match env {
        Some(path) => {
            if !path.is_empty() {
                return Some(ConfigSource::Explicit(path.to_owned()));
            }
        },
        None => {},
    }
    match dir {
        Some(dir) => Some(ConfigSource::Default(join_path(dir, CONFIG_FILE))),
        None => None,
    }
}

/// A config file that was read, and where from.
#[derive(Debug, Clone, PartialEq, Eq)]
pub struct Loaded {
    /// What it says.
    pub file: ConfigFile,
    /// The file that was read; `None` when there was none (all defaults).
    pub path: Option<String>,
}

impl Default for Loaded {
    fn default() -> (r: Self)
        ensures
            r == (Loaded { file: ConfigFile::nothing(), path: None }),
    {
        Loaded { file: ConfigFile::default(), path: None }
    }
}

/// How an attempt to read and understand the config file ended.
#[derive(Debug, PartialEq, Eq)]
pub enum Attempt {
    /// It says this.
    Read(ConfigFile),
    /// It is not there, with what was said of it.
    NotFound(String),
    /// It cannot be read, with why.
    Unreadable(String),
    /// It cannot be understood, with the key and the line.
    Broken(String),
}

/// What the attempt to read the config file amounts to. A default file that isn't there is not an
/// error; one that was asked for by name and isn't there is, and so is a file that can't be read
/// or understood. The message names the file.
pub fn load(source: Option<&ConfigSource>, attempt: Attempt) -> (r: Result<Loaded, String>)
    ensures
        match (source, attempt) {
            (None, _) => r == Ok::<Loaded, String>(
                Loaded { file: ConfigFile::nothing(), path: None },
            ),
            (Some(ConfigSource::Default(_)), Attempt::NotFound(_)) => r == Ok::<Loaded, String>(
                Loaded { file: ConfigFile::nothing(), path: None },
            ),
            (Some(source), Attempt::Read(file)) => r matches Ok(loaded) && loaded.file == file
                && loaded.path is Some && loaded.path->0@ == source.spec_path(),
            (Some(source), Attempt::NotFound(why)) => r matches Err(e) && e@
                == "reading the config file "@ + source.spec_path() + ": "@ + why@,
            (Some(source), Attempt::Unreadable(why)) => r matches Err(e) && e@
                == "reading the config file "@ + source.spec_path() + ": "@ + why@,
            (Some(source), Attempt::Broken(why)) => r matches Err(e) && e@
                == "in the config file "@ + source.spec_path() + ": "@ + why@,
        },
{
    let source = match source {
        Some(source) => source,
        None => {
            return Ok(Loaded::default());
        },
    };
    match attempt {
        Attempt::Read(file) => Ok(Loaded { file, path: Some(source.path().to_owned()) }),
        Attempt::NotFound(why) => match source {
            ConfigSource::Default(_) => Ok(Loaded::default()),
            ConfigSource::Explicit(path) => Err(
                about_file("reading the config file ", path.as_str(), why.as_str()),
            ),
        },
        Attempt::Unreadable(why) => Err(
            about_file("reading the config file ", source.path(), why.as_str()),
        ),
        Attempt::Broken(why) => Err(
            about_file("in the config file ", source.path(), why.as_str()),
        ),
    }
}

fn about_file(doing: &str, path: &str, why: &str) -> (r: String)
    ensures
        r@ == doing@ + path@ + ": "@ + why@,
{
    let mut text = String::new();
    text.push_str(doing);
    text.push_str(path);
    text.push_str(": ");
    text.push_str(why);
    assert(text@ =~= doing@ + path@ + ": "@ + why@);
    text
}

/// Where a setting's value came from.
#[derive(Debug, Clone, Copy, PartialEq, Eq, Structural)]
pub enum Origin {
    /// The command line.
    Flag,
    /// The config file.
    File,
    /// Neither.
    Default,
}

impl Origin {
    /// Where that is.
    pub open spec fn word(self) -> Seq<char> {
        match self {
            Origin::Flag => "command line"@,
            Origin::File => "config file"@,
            Origin::Default => "default"@,
        }
    }

    /// Where that is.
    pub fn text(self) -> (r: String)
        ensures
            r@ == self.word(),
    {
        match self {
            Origin::Flag => "command line".to_owned(),
            Origin::File => "config file".to_owned(),
            Origin::Default => "default".to_owned(),
        }
    }
}

/// A value, with where it came from.
#[derive(Debug, Clone, PartialEq, Eq)]
pub struct Sourced<T> {
    /// The value.
    pub value: T,
    /// Where it came from.
    pub origin: Origin,
}

impl<T> Sourced<T> {
    /// The flag if given, else the file's value, else the default.
    pub open spec fn picked(flag: Option<T>, file: Option<T>, default: T) -> Self {
        match (flag, file) {
            (Some(value), _) => Sourced { value, origin: Origin::Flag },
            (None, Some(value)) => Sourced { value, origin: Origin::File },
            (None, None) => Sourced { value: default, origin: Origin::Default },
        }
    }

    /// The flag if given, else the file's value, else the default.
    pub fn pick(flag: Option<T>, file: Option<T>, default: T) -> (r: Self)
        ensures
            r == Self::picked(flag, file, default),
    {
        match (flag, file) {
            (Some(value), _) => Sourced { value, origin: Origin::Flag },
            (None, Some(value)) => Sourced { value, origin: Origin::File },
            (None, None) => Sourced { value: default, origin: Origin::Default },
        }
    }
}

/// What the command line said. `None` means the flag was not given.
#[derive(Debug, Clone, PartialEq, Eq)]
pub struct Overrides {
    /// The device.
    pub device: Option<String>,
    /// The highest quality.
    pub max_quality: Option<Quality>,
    /// The socket.
    pub socket: Option<String>,
    /// Whether to say more.
    pub verbose: Option<bool>,
}

impl Default for Overrides {
    fn default() -> (r: Self)
        ensures
            r == (Overrides { device: None, max_quality: None, socket: None, verbose: None }),
    {
        Overrides { device: None, max_quality: None, socket: None, verbose: None }
    }
}

/// The settings in force, each with where it came from.
#[derive(Debug, Clone, PartialEq, Eq)]
pub struct Settings {
    /// `None` when neither the command line nor the file names a device.
    pub device: Sourced<Option<String>>,
    /// How to get at the sound.
    pub mode: Sourced<OutputMode>,
    /// Whether to ask the desktop for the card.
    pub reserve: Sourced<bool>,
    /// How long a pause lasts before the card is handed back.
    pub release_after_pause: Sourced<ReleaseAfterPause>,
    /// The highest quality to ask for.
    pub max_quality: Sourced<Quality>,
    /// Where the login is kept.
    pub session_store: Sourced<SessionStoreKind>,
    /// `None` means "the default socket path", which only the programs know.
    pub socket: Sourced<Option<String>>,
    /// Whether to say more.
    pub verbose: Sourced<bool>,
}

/// A given text, as something that can be left open.
pub open spec fn given(text: Option<String>) -> Option<Option<String>> {
    match text {
        Some(text) => Some(Some(text)),
        None => None,
    }
}

fn give(text: Option<String>) -> (r: Option<Option<String>>)
    ensures
        r == given(text),
{
    match text {
        Some(text) => Some(Some(text)),
        None => None,
    }
}

/// Decides every setting: command line over file over default.
pub fn resolve(overrides: Overrides, file: &ConfigFile) -> (r: Settings)
    ensures
        r == (Settings {
            device: Sourced::picked(
                given(overrides.device),
                given(file.output.device),
                None::<String>,
            ),
            mode: Sourced::picked(None, file.output.mode, OutputMode::Exclusive),
            reserve: Sourced::picked(None, file.output.reserve, true),
            release_after_pause: Sourced::picked(
                None,
                file.output.release_after_pause,
                ReleaseAfterPause::After(Duration { nanos: 10_000_000_000 }),
            ),
            max_quality: Sourced::picked(
                overrides.max_quality,
                file.tidal.max_quality,
                Quality::Hires,
            ),
            session_store: Sourced::picked(
                None,
                file.tidal.session_store,
                SessionStoreKind::File,
            ),
            socket: Sourced::picked(
                given(overrides.socket),
                given(file.daemon.socket),
                None::<String>,
            ),
            verbose: Sourced::picked(overrides.verbose, file.daemon.verbose, false),
        }),
{
    Settings {
        device: Sourced::pick(
            give(overrides.device),
            give(copied_text(&file.output.device)),
            None,
        ),
        mode: Sourced::pick(None, file.output.mode, OutputMode::default()),
        reserve: Sourced::pick(None, file.output.reserve, true),
        release_after_pause: Sourced::pick(
            None,
            file.output.release_after_pause,
            ReleaseAfterPause::default(),
        ),
        max_quality: Sourced::pick(
            overrides.max_quality,
            file.tidal.max_quality,
            Quality::default(),
        ),
        session_store: Sourced::pick(
            None,
            file.tidal.session_store,
            SessionStoreKind::default(),
        ),
        socket: Sourced::pick(give(overrides.socket), give(copied_text(&file.daemon.socket)), None),
        verbose: Sourced::pick(overrides.verbose, file.daemon.verbose, false),
    }
}

/// What is said when no device is configured.
pub open spec fn no_device_text() -> Seq<char> {
    "no audio device configured. Run `phonia devices` to see the sound cards, then put `device = \"hw:...\"` under [output] in the config file, or pass --device"@
}

impl Settings {
    /// The device to play on, or an explanation of how to name one.
    pub fn require_device(&self) -> (r: Result<&str, String>)
        ensures
            match self.device.value {
                Some(device) => r matches Ok(d) && d@ == device@,
                None => r matches Err(why) && why@ == no_device_text(),
            },
    {
        match &self.device.value {
            Some(device) => Ok(device.as_str()),
            None => Err(
                "no audio device configured. Run `phonia devices` to see the sound cards, then put `device = \"hw:...\"` under [output] in the config file, or pass --device".to_owned(),
            ),
        }
    }

    /// The socket to use: the configured one, or `default()` (the daemon's usual path), which is
    /// only asked for then.
    pub fn socket_path(&self, default: impl FnOnce() -> String) -> (r: String)
        requires
            self.socket.value is None ==> call_requires(default, ()),
        ensures
            match self.socket.value {
                Some(path) => r == path,
                None => call_ensures(default, (), r),
            },
    {
        match &self.socket.value {
            Some(path) => path.clone(),
            None => default(),
        }
    }
}

/// What TIDAL calls the highest quality to ask for.
pub open spec fn tidal_quality(quality: Quality) -> AudioQuality {
    match quality {
        Quality::Hires => AudioQuality::HiRes,
        Quality::Lossless => AudioQuality::Lossless,
    }
}

impl From<Quality> for AudioQuality {
    fn from(quality: Quality) -> Self {
        match quality {
            Quality::Hires => AudioQuality::HiRes,
            Quality::Lossless => AudioQuality::Lossless,
        }
    }
}

impl vstd::std_specs::convert::FromSpecImpl<Quality> for AudioQuality {
    open spec fn obeys_from_spec() -> bool {
        true
    }

    open spec fn from_spec(quality: Quality) -> Self {
        tidal_quality(quality)
    }
}

/// The output to play on, as the settings name it.
#[derive(Debug, PartialEq, Eq)]
pub enum OutputSpec {
    /// A sound card of phonia's own.
    Exclusive {
        /// The ALSA device.
        device: String,
    },
    /// An output of the sound server.
    Shared {
        /// Its name; `None` is the desktop's default.
        sink: Option<String>,
    },
}

impl OutputSpec {
    /// What identifies it among all outputs.
    pub open spec fn spec_id(self) -> Seq<char> {
        match self {
            OutputSpec::Exclusive { device } => "exclusive:"@ + device@,
            OutputSpec::Shared { sink: Some(name) } => "shared:"@ + name@,
            OutputSpec::Shared { sink: None } => "shared:default"@,
        }
    }

    /// What identifies it among all outputs.
    pub fn id(&self) -> (r: String)
        ensures
            r@ == self.spec_id(),
    {
        match self {
            OutputSpec::Exclusive { device } => joined("exclusive:", device.as_str()),
            OutputSpec::Shared { sink } => match sink {
                Some(name) => joined("shared:", name.as_str()),
                None => "shared:default".to_owned(),
            },
        }
    }

    /// What it is called when nothing else is known of it.
    pub open spec fn spec_describe(self) -> Seq<char> {
        match self {
            OutputSpec::Exclusive { device } => "device "@ + device@,
            OutputSpec::Shared { sink: Some(name) } => "output "@ + name@,
            OutputSpec::Shared { sink: None } => "default output"@,
        }
    }

    /// What it is called when nothing else is known of it.
    pub fn describe(&self) -> (r: String)
        ensures
            r@ == self.spec_describe(),
    {
        match self {
            OutputSpec::Exclusive { device } => joined("device ", device.as_str()),
            OutputSpec::Shared { sink } => match sink {
                Some(name) => joined("output ", name.as_str()),
                None => "default output".to_owned(),
            },
        }
    }
}

} // verus!
