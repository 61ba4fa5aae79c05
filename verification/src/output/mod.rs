//! Audio outputs. The playback engine is told what a device holds and does, and asks for what it
//! wants done; here are the rules of the devices themselves: sound cards of phonia's own, outputs
//! of the desktop's sound server, and the in-memory [`fake::FakeSink`] that tests play to.

pub mod alsa;
pub mod cards;
pub mod catalog;
pub mod dbus;
pub mod device;
pub mod evidence;
pub mod fake;
pub mod outputs;
pub mod reserve;
pub mod shared;

use self::reserve::PRIORITY;
use self::shared::pulse::Target;
use crate::config::OutputSpec;
use vstd::prelude::*;

verus! {

/// The output the engine was playing on has gone away (a Bluetooth speaker switched off, the sound
/// server stopped).
#[derive(Debug, PartialEq, Eq)]
pub struct OutputGone(pub String);

impl OutputGone {
    /// What to tell the user.
    pub fn message(&self) -> (r: String)
        ensures
            r@ == "the audio output is gone: "@ + self.0@,
    {
        crate::text::joined("the audio output is gone: ", self.0.as_str())
    }
}

/// Another program asking for the card the engine is playing on.
#[derive(Debug, Clone, PartialEq, Eq)]
pub struct ReleaseRequest {
    /// Who is asking, if known (a process name).
    pub by: Option<String>,
    /// The asker's priority, as in `org.freedesktop.ReserveDevice1`.
    pub priority: i32,
}

impl ReleaseRequest {
    /// Whether the card is to be given up: only to a program that matters more than this one.
    pub fn matters_more(&self) -> (r: bool)
        ensures
            r == (self.priority > PRIORITY),
    {
        self.priority > PRIORITY
    }
}

/// How loud a stream of the sound server plays.
#[derive(Debug, Clone, Copy, PartialEq, Eq, Structural)]
pub struct Volume {
    /// Of unity gain.
    pub percent: u8,
    /// Silent, whatever the percentage.
    pub muted: bool,
}

/// What to open sinks with.
#[derive(Debug, PartialEq, Eq)]
pub enum Factory {
    /// A sound card of its own.
    Exclusive {
        /// The device.
        device: String,
        /// The priority with which the desktop is asked to release it first, if it is asked.
        reserve: Option<i32>,
    },
    /// An output of the sound server.
    Shared(Target),
}

/// What to open sinks with for the output the settings choose: a sound card of phonia's own, with
/// the desktop asked to release it first unless `reserve` is off, or an output of the sound server.
pub fn factory_for(spec: &OutputSpec, reserve: bool) -> (r: Factory)
    ensures
        match *spec {
            OutputSpec::Exclusive { device } => r == (Factory::Exclusive {
                device,
                reserve: if reserve {
                    Some(PRIORITY)
                } else {
                    None
                },
            }),
            OutputSpec::Shared { sink } => r matches Factory::Shared(target) && match sink {
                Some(name) if name@ != "default"@ => target matches Target::Named(n) && n@ == name@,
                _ => target is Default,
            },
        },
{
    match spec {
        OutputSpec::Exclusive { device } => Factory::Exclusive {
            device: device.clone(),
            reserve: if reserve {
                Some(PRIORITY)
            } else {
                None
            },
        },
        OutputSpec::Shared { sink } => {
            let name = match sink {
                Some(name) => Some(name.as_str()),
                None => None,
            };
            Factory::Shared(Target::parse(name))
        },
    }
}

} // verus!
