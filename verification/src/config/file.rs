//! The contents of `config.toml`: what the file may say.
//!
//! Every setting is optional so that "not written" can be told apart from "written, and equal to
//! the default": that is what lets a listing say where each value came from.

use crate::text::{decimal, decimal_text, quoted, quoted_text, same};
use crate::time::{Duration, NANOS_PER_SEC};
use vstd::prelude::*;

verus! {

/// The highest quality to ask TIDAL for.
#[derive(Debug, Clone, Copy, PartialEq, Eq, Structural)]
pub enum Quality {
    /// More than CD quality, where there is any.
    Hires,
    /// CD quality.
    Lossless,
}

impl Default for Quality {
    fn default() -> (r: Self)
        ensures
            r is Hires,
    {
        Quality::Hires
    }
}

impl Quality {
    /// The word for it.
    pub open spec fn word(self) -> Seq<char> {
        match self {
            Quality::Hires => "hires"@,
            Quality::Lossless => "lossless"@,
        }
    }

    /// The word for it, which the config file and the command line both accept.
    pub fn text(self) -> (r: String)
        ensures
            r@ == self.word(),
    {
        match self {
            Quality::Hires => "hires".to_owned(),
            Quality::Lossless => "lossless".to_owned(),
        }
    }

    /// The quality that a word stands for.
    pub fn from_word(text: &str) -> (r: Result<Self, String>)
        ensures
            match r {
                Ok(quality) => text@ == quality.word(),
                Err(why) => {
                    &&& text@ != "hires"@
                    &&& text@ != "lossless"@
                    &&& why@ == "unknown quality "@ + quoted_text(text@)
                        + ": expected hires or lossless"@
                },
            },
    {
        if same(text, "hires") {
            Ok(Quality::Hires)
        } else if same(text, "lossless") {
            Ok(Quality::Lossless)
        } else {
            let mut why = String::new();
            why.push_str("unknown quality ");
            why.push_str(quoted(text).as_str());
            why.push_str(": expected hires or lossless");
            assert(why@ =~= "unknown quality "@ + quoted_text(text@)
                + ": expected hires or lossless"@);
            Err(why)
        }
    }
}

/// The words for the qualities differ, so the word for a quality stands for that one only.
pub proof fn the_word_for_a_quality_reads_back(a: Quality, b: Quality)
    ensures
        a.word() == b.word() ==> a == b,
{
    reveal_strlit("hires");
    reveal_strlit("lossless");
    assert("hires"@.len() == 5);
    assert("lossless"@.len() == 8);
}

/// How phonia gets at the sound.
#[derive(Debug, Clone, Copy, PartialEq, Eq, Structural)]
pub enum OutputMode {
    /// phonia opens the card itself, with nothing mixing or resampling in between: bit-perfect.
    Exclusive,
    /// phonia plays through the desktop's sound server (PipeWire, PulseAudio), which mixes and
    /// resamples: not bit-perfect, but any output works, Bluetooth included.
    Shared,
}

impl Default for OutputMode {
    fn default() -> (r: Self)
        ensures
            r is Exclusive,
    {
        OutputMode::Exclusive
    }
}

impl OutputMode {
    /// The word for it.
    pub open spec fn word(self) -> Seq<char> {
        match self {
            OutputMode::Exclusive => "exclusive"@,
            OutputMode::Shared => "shared"@,
        }
    }

    /// The word for it.
    pub fn text(self) -> (r: String)
        ensures
            r@ == self.word(),
    {
        match self {
            OutputMode::Exclusive => "exclusive".to_owned(),
            OutputMode::Shared => "shared".to_owned(),
        }
    }
}

/// How long a pause lasts before the sound card is handed back to the desktop.
#[derive(Debug, Clone, Copy, PartialEq, Eq, Structural)]
pub enum ReleaseAfterPause {
    /// Keep the card for as long as there is a track.
    Never,
    /// Hand it back after this long; zero hands it back on every pause.
    After(Duration),
}

impl Default for ReleaseAfterPause {
    fn default() -> (r: Self)
        ensures
            r == ReleaseAfterPause::After(Duration { nanos: 10_000_000_000 }),
    {
        ReleaseAfterPause::After(Duration::from_secs(10))
    }
}

impl ReleaseAfterPause {
    /// The wait, or `None` for never.
    pub fn duration(self) -> (r: Option<Duration>)
        ensures
            r == match self {
                ReleaseAfterPause::Never => None::<Duration>,
                ReleaseAfterPause::After(wait) => Some(wait),
            },
    {
        match self {
            ReleaseAfterPause::Never => None,
            ReleaseAfterPause::After(wait) => Some(wait),
        }
    }

    /// The wait in words: whole seconds, or `never`.
    pub fn text(self) -> (r: String)
        requires
            self matches ReleaseAfterPause::After(wait) ==> wait@ / NANOS_PER_SEC as nat
                <= u64::MAX,
        ensures
            r@ == match self {
                ReleaseAfterPause::Never => "never"@,
                ReleaseAfterPause::After(wait) => decimal_text(wait@ / NANOS_PER_SEC as nat)
                    + " s"@,
            },
    {
        match self {
            ReleaseAfterPause::Never => "never".to_owned(),
            ReleaseAfterPause::After(wait) => {
                let secs: u64 = (wait.nanos / NANOS_PER_SEC) as u64;
                crate::text::joined(decimal(secs).as_str(), " s")
            },
        }
    }

    /// The wait of a number of seconds, if it is none below zero.
    pub fn from_seconds(seconds: i64) -> (r: Option<Self>)
        ensures
            match r {
                Some(wait) => seconds >= 0 && wait == ReleaseAfterPause::After(
                    Duration { nanos: (seconds * NANOS_PER_SEC) as u128 },
                ),
                None => seconds < 0,
            },
    {
        if seconds < 0 {
            None
        } else {
            Some(ReleaseAfterPause::After(Duration::from_secs(seconds as u64)))
        }
    }

    /// The wait that a word stands for.
    pub fn from_word(word: &str) -> (r: Option<Self>)
        ensures
            r == if word@ == "never"@ {
                Some(ReleaseAfterPause::Never)
            } else {
                None
            },
    {
        if same(word, "never") {
            Some(ReleaseAfterPause::Never)
        } else {
            None
        }
    }
}

/// The `[output]` section.
#[derive(Debug, Clone, PartialEq, Eq)]
pub struct Output {
    /// The ALSA device: `hw:N,D`, a card id such as `hw:DS2,0`, or `auto`.
    pub device: Option<String>,
    /// How to get at the sound.
    pub mode: Option<OutputMode>,
    /// In shared mode, the output to play on: `"default"` (the desktop's, following it) or the
    /// name of one.
    pub sink: Option<String>,
    /// Ask the desktop (WirePlumber, PulseAudio) to release the card before opening it.
    pub reserve: Option<bool>,
    /// How long a pause lasts before the card is handed back.
    pub release_after_pause: Option<ReleaseAfterPause>,
}

impl Default for Output {
    fn default() -> (r: Self)
        ensures
            r == (Output {
                device: None,
                mode: None,
                sink: None,
                reserve: None,
                release_after_pause: None,
            }),
    {
        Output { device: None, mode: None, sink: None, reserve: None, release_after_pause: None }
    }
}

/// Where the TIDAL login is kept between runs.
#[derive(Debug, Clone, Copy, PartialEq, Eq, Structural)]
pub enum SessionStoreKind {
    /// The desktop keyring (Secret Service: GNOME Keyring, KWallet, KeePassXC).
    Keyring,
    /// A file only you can read (`session.json` in the config directory).
    File,
}

impl Default for SessionStoreKind {
    fn default() -> (r: Self)
        ensures
            r is File,
    {
        SessionStoreKind::File
    }
}

impl SessionStoreKind {
    /// The word for it.
    pub open spec fn word(self) -> Seq<char> {
        match self {
            SessionStoreKind::Keyring => "keyring"@,
            SessionStoreKind::File => "file"@,
        }
    }

    /// The word for it.
    pub fn text(self) -> (r: String)
        ensures
            r@ == self.word(),
    {
        match self {
            SessionStoreKind::Keyring => "keyring".to_owned(),
            SessionStoreKind::File => "file".to_owned(),
        }
    }
}

/// The `[tidal]` section.
#[derive(Debug, PartialEq, Eq, Clone, Copy, Structural)]
pub struct Tidal {
    /// The highest quality to ask for.
    pub max_quality: Option<Quality>,
    /// Where the login is kept.
    pub session_store: Option<SessionStoreKind>,
}

impl Default for Tidal {
    fn default() -> (r: Self)
        ensures
            r == (Tidal { max_quality: None, session_store: None }),
    {
        Tidal { max_quality: None, session_store: None }
    }
}

/// The `[daemon]` section.
#[derive(Debug, Clone, PartialEq, Eq)]
pub struct Daemon {
    /// The socket to listen on.
    pub socket: Option<String>,
    /// Whether to say more.
    pub verbose: Option<bool>,
}

impl Default for Daemon {
    fn default() -> (r: Self)
        ensures
            r == (Daemon { socket: None, verbose: None }),
    {
        Daemon { socket: None, verbose: None }
    }
}

/// The whole file.
#[derive(Debug, Clone, PartialEq, Eq)]
pub struct ConfigFile {
    /// The `[output]` section.
    pub output: Output,
    /// The `[tidal]` section.
    pub tidal: Tidal,
    /// The `[daemon]` section.
    pub daemon: Daemon,
}

impl ConfigFile {
    /// A file that says nothing.
    pub open spec fn nothing() -> ConfigFile {
        ConfigFile {
            output: Output {
                device: None,
                mode: None,
                sink: None,
                reserve: None,
                release_after_pause: None,
            },
            tidal: Tidal { max_quality: None, session_store: None },
            daemon: Daemon { socket: None, verbose: None },
        }
    }
}

impl Default for ConfigFile {
    fn default() -> (r: Self)
        ensures
            r == ConfigFile::nothing(),
    {
        ConfigFile {
            output: Output::default(),
            tidal: Tidal::default(),
            daemon: Daemon::default(),
        }
    }
}

} // verus!
