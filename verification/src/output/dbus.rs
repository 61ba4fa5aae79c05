//! Reserving a sound card over D-Bus, with the `org.freedesktop.ReserveDevice1` protocol that
//! WirePlumber and PulseAudio use to share cards.
//!
//! Whoever owns the bus name `org.freedesktop.ReserveDevice1.Audio<N>` may use card `N`. To take a
//! card that someone holds, phonia asks the holder to release it and, if it agrees, takes the name
//! over. These are the names and the decisions; the bus itself is driven by whoever holds the
//! connection.

use super::reserve::ReserveError;
use crate::text::{decimal, decimal_text};
use vstd::prelude::*;

verus! {

/// How long a holder has to answer the request to release a card, in nanoseconds.
pub const HOLDER_ANSWER_TIMEOUT: u128 = 3_000_000_000;

/// After the holder agrees, the name may take a moment to become free: how often it is asked for.
pub const TAKE_RETRIES: u32 = 10;

/// The time between two such tries, in nanoseconds.
pub const TAKE_RETRY_DELAY: u128 = 100_000_000;

/// The bus name whose owner may use card `card`.
pub fn bus_name(card: u32) -> (r: String)
    ensures
        r@ == "org.freedesktop.ReserveDevice1.Audio"@ + decimal_text(card as nat),
{
    crate::text::joined("org.freedesktop.ReserveDevice1.Audio", decimal(card as u64).as_str())
}

/// The path of the object that answers for card `card`.
pub fn object_path(card: u32) -> (r: String)
    ensures
        r@ == "/org/freedesktop/ReserveDevice1/Audio"@ + decimal_text(card as nat),
{
    crate::text::joined("/org/freedesktop/ReserveDevice1/Audio", decimal(card as u64).as_str())
}

/// What the bus said to a request for a name.
#[derive(Debug, PartialEq, Eq)]
pub enum NameReply {
    /// The name is ours now.
    PrimaryOwner,
    /// It was ours before.
    AlreadyOwner,
    /// We would get it later.
    InQueue,
    /// Someone else has it.
    Exists,
    /// Someone else has it (as an error).
    Taken,
    /// The request failed.
    Failed(String),
}

/// Who has a name.
#[derive(Debug, Clone, Copy, PartialEq, Eq, Structural)]
pub enum Taken {
    /// We own the name now.
    Yes,
    /// Someone else does.
    No,
}

/// Who has the name after the bus was asked for it.
pub fn taken(reply: NameReply) -> (r: Result<Taken, ReserveError>)
    ensures
        match reply {
            NameReply::PrimaryOwner | NameReply::AlreadyOwner => r == Ok::<Taken, ReserveError>(
                Taken::Yes,
            ),
            NameReply::InQueue | NameReply::Exists | NameReply::Taken => r == Ok::<
                Taken,
                ReserveError,
            >(Taken::No),
            NameReply::Failed(why) => r == Err::<Taken, ReserveError>(ReserveError::Failed(why)),
        },
{
    match reply {
        NameReply::PrimaryOwner | NameReply::AlreadyOwner => Ok(Taken::Yes),
        NameReply::InQueue | NameReply::Exists | NameReply::Taken => Ok(Taken::No),
        NameReply::Failed(why) => Err(ReserveError::Failed(why)),
    }
}

/// How the holder of a card answered the request to release it.
#[derive(Debug, Clone, Copy, PartialEq, Eq, Structural)]
pub enum Answer {
    /// It will let go.
    Agreed,
    /// It will not.
    Refused,
    /// It did not answer, or not in time.
    Silent,
}

/// Taking a card from its holder.
pub struct Takeover {
    device: String,
    holder: String,
    priority: Option<i32>,
    tries: u32,
}

/// What is said when a holder agreed to release a device and did not.
pub open spec fn still_reserved_text(holder: Seq<char>, device: Seq<char>) -> Seq<char> {
    holder + " agreed to release "@ + device + ", but the card is still reserved"@
}

/// What to do next to take a card.
#[derive(Debug, PartialEq, Eq)]
pub enum TakeStep {
    /// It is taken.
    Done,
    /// Wait a moment and ask for the name again.
    Again,
    /// Give up, with this error.
    Fail(ReserveError),
}

impl Takeover {
    /// The device that is wanted.
    pub closed spec fn of(self) -> Seq<char> {
        self.device@
    }

    /// Who holds it.
    pub closed spec fn from(self) -> Seq<char> {
        self.holder@
    }

    /// The holder's priority, if known.
    pub closed spec fn against(self) -> Option<i32> {
        self.priority
    }

    /// How often the name was asked for in vain.
    pub closed spec fn tried(self) -> u32 {
        self.tries
    }

    /// The device `device` is held by a program that calls itself `holder`, if it says so.
    pub fn new(device: String, holder: Option<String>, priority: Option<i32>) -> (r: Self)
        ensures
            r.of() == device@,
            r.from() == match holder {
                Some(name) => name@,
                None => "another program"@,
            },
            r.against() == priority,
            r.tried() == 0,
    {
        let holder = match holder {
            Some(name) => name,
            None => "another program".to_owned(),
        };
        Takeover { device, holder, priority, tries: 0 }
    }

    /// The holder answered the request to release the card, or did not. If it agreed, the name is
    /// to be asked for.
    pub fn answered(&self, answer: Answer) -> (r: Result<(), ReserveError>)
        ensures
            match answer {
                Answer::Agreed => r is Ok,
                Answer::Refused => r matches Err(
                    ReserveError::Refused { device, holder, priority },
                ) && device@ == self.of() && holder@ == self.from() && priority == self.against(),
                Answer::Silent => r matches Err(ReserveError::Unresponsive { device, holder })
                    && device@ == self.of() && holder@ == self.from(),
            },
    {
        match answer {
            Answer::Agreed => Ok(()),
            Answer::Refused => Err(
                ReserveError::Refused {
                    device: self.device.clone(),
                    holder: self.holder.clone(),
                    priority: self.priority,
                },
            ),
            Answer::Silent => Err(
                ReserveError::Unresponsive {
                    device: self.device.clone(),
                    holder: self.holder.clone(),
                },
            ),
        }
    }

    /// The name was asked for after the holder had agreed.
    pub fn asked(&mut self, outcome: Result<Taken, ReserveError>) -> (r: TakeStep)
        requires
            old(self).tried() < TAKE_RETRIES,
        ensures
            final(self).of() == old(self).of(),
            final(self).from() == old(self).from(),
            final(self).against() == old(self).against(),
            match outcome {
                Ok(Taken::Yes) => r is Done,
                Ok(Taken::No) => {
                    &&& final(self).tried() == old(self).tried() + 1
                    &&& if final(self).tried() < TAKE_RETRIES {
                        r is Again
                    } else {
                        r matches TakeStep::Fail(ReserveError::Failed(why)) && why@
                            == still_reserved_text(old(self).from(), old(self).of())
                    }
                },
                Err(why) => r == TakeStep::Fail(why),
            },
    {
        match outcome {
            Ok(Taken::Yes) => TakeStep::Done,
            Ok(Taken::No) => {
                self.tries = self.tries + 1;
                if self.tries < TAKE_RETRIES {
                    return TakeStep::Again;
                }
                let mut why = String::new();
                why.push_str(self.holder.as_str());
                why.push_str(" agreed to release ");
                why.push_str(self.device.as_str());
                why.push_str(", but the card is still reserved");
                assert(why@ =~= still_reserved_text(self.from(), self.of()));
                TakeStep::Fail(ReserveError::Failed(why))
            },
            Err(why) => TakeStep::Fail(why),
        }
    }
}

} // verus!
