//! Reserving the DAC before opening it, and giving it back afterwards.
//!
//! Desktop audio servers (WirePlumber, PulseAudio) hold sound cards through the
//! `org.freedesktop.ReserveDevice1` protocol: whoever owns the bus name `Audio<N>` may use card
//! `N`, and a program that needs the card asks the owner to let go. This module holds the
//! protocol-independent half: what a reservation is, when it is taken and dropped, and how the
//! sink opens under it.

use crate::pieces::{signed, signed_text};
use vstd::prelude::*;

verus! {

/// How much phonia insists when it asks for a card. Higher than WirePlumber (-20) and PulseAudio
/// (0), so they give way, and it is also the bar another program's request has to clear before
/// phonia gives the card up.
pub const PRIORITY: i32 = 10;

/// How often the opening of a device that is busy is tried again right after the card was taken
/// from another holder: that holder tears its side down asynchronously, so the device stays busy
/// for a moment.
pub const BUSY_RETRIES: u32 = 20;

/// The time between two such tries, in nanoseconds.
pub const BUSY_RETRY_DELAY: u128 = 50_000_000;

/// Why a card could not be reserved.
#[derive(Debug, PartialEq, Eq)]
#[allow(inconsistent_fields)]
pub enum ReserveError {
    /// There is no bus to reserve on (no session, or nothing listening). Playback can still be
    /// attempted without a reservation.
    NoBus(String),
    /// The holder answered that it will not let go.
    Refused {
        /// The device.
        device: String,
        /// Who holds it.
        holder: String,
        /// The holder's priority, if known.
        priority: Option<i32>,
    },
    /// The holder did not answer in time.
    Unresponsive {
        /// The device.
        device: String,
        /// Who holds it.
        holder: String,
    },
    /// Something else went wrong.
    Failed(String),
}

/// What follows the holder in the text of a refusal.
pub open spec fn refusal_advice() -> Seq<char> {
    ", which refused to release it to phonia (priority 10). Stop that application or its playback on the DAC and try again, or set `reserve = false` under [output] to skip the request."@
}

impl ReserveError {
    /// What [`ReserveError::message`] says.
    pub open spec fn text(self) -> Seq<char> {
        match self {
            ReserveError::NoBus(why) => "no D-Bus session to reserve the DAC on: "@ + why@,
            ReserveError::Refused { device, holder, priority } => "the DAC "@ + device@
                + " is held by "@ + holder@ + match priority {
                Some(priority) => " (priority "@ + signed_text(priority as int) + ")"@,
                None => Seq::empty(),
            } + refusal_advice(),
            ReserveError::Unresponsive { device, holder } => holder@
                + " did not answer the request to release "@ + device@ + " in time"@,
            ReserveError::Failed(why) => "could not reserve the DAC: "@ + why@,
        }
    }

    /// What to tell the user.
    pub fn message(&self) -> (r: String)
        ensures
            r@ == self.text(),
    {
        let mut text = String::new();
        match self {
            ReserveError::NoBus(why) => {
                text.push_str("no D-Bus session to reserve the DAC on: ");
                text.push_str(why.as_str());
            },
            ReserveError::Refused { device, holder, priority } => {
                text.push_str("the DAC ");
                text.push_str(device.as_str());
                text.push_str(" is held by ");
                text.push_str(holder.as_str());
                match priority {
                    Some(priority) => {
                        text.push_str(" (priority ");
                        text.push_str(signed(*priority).as_str());
                        text.push_str(")");
                    },
                    None => {},
                }
                text.push_str(
                    ", which refused to release it to phonia (priority 10). Stop that application or its playback on the DAC and try again, or set `reserve = false` under [output] to skip the request.",
                );
            },
            ReserveError::Unresponsive { device, holder } => {
                text.push_str(holder.as_str());
                text.push_str(" did not answer the request to release ");
                text.push_str(device.as_str());
                text.push_str(" in time");
            },
            ReserveError::Failed(why) => {
                text.push_str("could not reserve the DAC: ");
                text.push_str(why.as_str());
            },
        }
        assert(text@ =~= self.text());
        text
    }
}

/// The device is open elsewhere. A caller that just took the card from another holder tells it
/// apart from other failures and tries again.
#[derive(Debug, PartialEq, Eq)]
pub struct DeviceBusy {
    /// The device.
    pub device: String,
    /// What ALSA said.
    pub detail: String,
}

/// What follows the device in the text of [`DeviceBusy`].
pub open spec fn busy_advice() -> Seq<char> {
    "' is busy (EBUSY): some other program has it open. If it is PipeWire, leave `reserve = true` under [output] so phonia asks it to let go; otherwise stop playback to that DAC (`fuser -v /dev/snd/*`), or as a last resort switch the card's profile off (`pactl set-card-profile <card> off`).\nOriginal ALSA error: "@
}

impl DeviceBusy {
    /// What to tell the user.
    pub fn message(&self) -> (r: String)
        ensures
            r@ == "device '"@ + self.device@ + busy_advice() + self.detail@,
    {
        let mut text = String::new();
        text.push_str("device '");
        text.push_str(self.device.as_str());
        text.push_str(
            "' is busy (EBUSY): some other program has it open. If it is PipeWire, leave `reserve = true` under [output] so phonia asks it to let go; otherwise stop playback to that DAC (`fuser -v /dev/snd/*`), or as a last resort switch the card's profile off (`pactl set-card-profile <card> off`).\nOriginal ALSA error: ",
        );
        text.push_str(self.detail.as_str());
        assert(text@ =~= "device '"@ + self.device@ + busy_advice() + self.detail@);
        text
    }
}

/// What became of the reservation of a card.
#[derive(Debug, Clone, Copy, PartialEq, Eq, Structural)]
pub enum Ensured {
    /// Already held for this card: nothing to do.
    AlreadyHeld,
    /// It was taken now.
    Acquired {
        /// From another holder, as opposed to being free.
        took_over: bool,
    },
}

/// What has to be done for a card to be reserved.
pub enum ToReserve<R> {
    /// Nothing: it is held already.
    AlreadyHeld,
    /// Give this reservation back, if there is one, and acquire the card.
    Acquire(Option<R>),
}

/// The reservation of the card the engine is currently using, kept between sinks so that a change
/// of format from one track to the next never gives the card back to the desktop.
pub struct ReservationSlot<R> {
    held: Option<(u32, R)>,
}

impl<R> ReservationSlot<R> {
    /// What is held, and for which card.
    pub closed spec fn holds(self) -> Option<(u32, R)> {
        self.held
    }

    /// A slot that holds nothing.
    pub fn new() -> (r: Self)
        ensures
            r.holds() is None,
    {
        ReservationSlot { held: None }
    }

    /// What has to be done for card `card` to be reserved. A reservation for a different card
    /// number (the DAC was plugged back in under another one) has to be dropped first.
    pub fn ensure(&mut self, card: u32) -> (r: ToReserve<R>)
        ensures
            match old(self).holds() {
                Some((held, _)) if held == card => r is AlreadyHeld && *final(self) == *old(self),
                Some((_, reservation)) => r == ToReserve::Acquire(Some(reservation)) && final(
                    self).holds() is None,
                None => r == ToReserve::<R>::Acquire(None) && final(self).holds() is None,
            },
    {
        match self.held.take() {
            Some((held, reservation)) => {
                if held == card {
                    self.held = Some((held, reservation));
                    ToReserve::AlreadyHeld
                } else {
                    ToReserve::Acquire(Some(reservation))
                }
            },
            None => ToReserve::Acquire(None),
        }
    }

    /// Card `card` was acquired.
    pub fn acquired(&mut self, card: u32, reservation: R, took_over: bool) -> (r: Ensured)
        requires
            old(self).holds() is None,
        ensures
            final(self).holds() == Some((card, reservation)),
            r == (Ensured::Acquired { took_over }),
    {
        self.held = Some((card, reservation));
        Ensured::Acquired { took_over }
    }

    /// Gives the card back: the reservation to drop, if there is one.
    pub fn release(&mut self) -> (r: Option<R>)
        ensures
            final(self).holds() is None,
            match old(self).holds() {
                Some((_, reservation)) => r == Some(reservation),
                None => r is None,
            },
    {
        match self.held.take() {
            Some((_, reservation)) => Some(reservation),
            None => None,
        }
    }

    /// Which card is held.
    pub fn held_card(&self) -> (r: Option<u32>)
        ensures
            match self.holds() {
                Some((card, _)) => r == Some(card),
                None => r is None,
            },
    {
        match &self.held {
            Some((card, _)) => Some(*card),
            None => None,
        }
    }
}

/// Opening a device under a reservation.
#[derive(Debug, Clone, Copy, PartialEq, Eq, Structural)]
pub struct ReservedOpen {
    took_over: bool,
    no_bus: bool,
    attempts_left: u32,
}

/// What to do about a device that is busy.
#[derive(Debug, Clone, Copy, PartialEq, Eq, Structural)]
pub enum AfterBusy {
    /// Wait a moment and try again.
    Retry,
    /// Fail, and say that a program that does not use reservation has it.
    StillBusy,
    /// Fail, and say that there was no bus to reserve on.
    NoBus,
    /// Fail.
    Fail,
}

impl AfterBusy {
    /// What to put before the error of a device that stayed busy.
    pub fn note(self) -> (r: Option<String>)
        ensures
            match self {
                AfterBusy::StillBusy => r matches Some(note) && note@
                    == "phonia reserved the card through D-Bus, but it is still busy: a program that does not use device reservation has it open (see `fuser -v /dev/snd/*`)"@,
                AfterBusy::NoBus => r matches Some(note) && note@
                    == "device reservation was not possible: there is no D-Bus session"@,
                _ => r is None,
            },
    {
        match self {
            AfterBusy::StillBusy => Some(
                "phonia reserved the card through D-Bus, but it is still busy: a program that does not use device reservation has it open (see `fuser -v /dev/snd/*`)".to_owned(),
            ),
            AfterBusy::NoBus => Some(
                "device reservation was not possible: there is no D-Bus session".to_owned(),
            ),
            _ => None,
        }
    }
}

impl ReservedOpen {
    /// Whether the card was just taken from another holder.
    pub closed spec fn from_another(self) -> bool {
        self.took_over
    }

    /// Whether there was no bus to reserve on.
    pub closed spec fn without_bus(self) -> bool {
        self.no_bus
    }

    /// How often the opening will be tried again.
    pub closed spec fn left(self) -> u32 {
        self.attempts_left
    }

    /// What holds at every moment: tries are only left after the card was taken from another
    /// holder.
    pub open spec fn wf(self) -> bool {
        self.left() > 0 ==> self.from_another()
    }

    /// Whether a busy device is tried again, or what is said of it otherwise.
    pub open spec fn verdict(self) -> AfterBusy {
        if self.left() > 0 {
            AfterBusy::Retry
        } else if self.from_another() {
            AfterBusy::StillBusy
        } else if self.without_bus() {
            AfterBusy::NoBus
        } else {
            AfterBusy::Fail
        }
    }

    /// A device whose card is not reserved at all (`default`, `plughw:` and the like, or when
    /// reservation is off).
    pub fn unreserved() -> (r: Self)
        ensures
            r.wf(),
            !r.from_another(),
            !r.without_bus(),
            r.left() == 0,
    {
        ReservedOpen { took_over: false, no_bus: false, attempts_left: 0 }
    }

    /// The card was to be reserved first, with this outcome. A busy device is tried again up to
    /// `retries` times if the card was just taken from another holder. A missing bus is not an
    /// error: the open goes ahead, and fails with the usual message if something else holds the
    /// card. Any other failure is one, and the device is not opened.
    pub fn reserved(outcome: Result<Ensured, ReserveError>, retries: u32) -> (r: Result<
        Self,
        ReserveError,
    >)
        ensures
            r matches Ok(open) ==> open.wf(),
            match outcome {
                Ok(Ensured::Acquired { took_over }) => r matches Ok(open) && open.from_another()
                    == took_over && !open.without_bus() && open.left() == if took_over {
                    retries
                } else {
                    0
                },
                Ok(Ensured::AlreadyHeld) => r matches Ok(open) && !open.from_another()
                    && !open.without_bus() && open.left() == 0,
                Err(ReserveError::NoBus(_)) => r matches Ok(open) && !open.from_another()
                    && open.without_bus() && open.left() == 0,
                Err(why) => r == Err::<Self, ReserveError>(why),
            },
    {
        match outcome {
            Ok(Ensured::Acquired { took_over }) => Ok(
                ReservedOpen {
                    took_over,
                    no_bus: false,
                    attempts_left: if took_over {
                        retries
                    } else {
                        0
                    },
                },
            ),
            Ok(Ensured::AlreadyHeld) => Ok(ReservedOpen::unreserved()),
            Err(ReserveError::NoBus(_)) => Ok(
                ReservedOpen { took_over: false, no_bus: true, attempts_left: 0 },
            ),
            Err(why) => Err(why),
        }
    }

    /// The device was busy.
    pub fn busy(&mut self) -> (r: AfterBusy)
        ensures
            old(self).wf() ==> final(self).wf(),
            r == old(self).verdict(),
            final(self).from_another() == old(self).from_another(),
            final(self).without_bus() == old(self).without_bus(),
            final(self).left() == if old(self).left() > 0 {
                (old(self).left() - 1) as u32
            } else {
                0
            },
    {
        if self.attempts_left > 0 {
            self.attempts_left = self.attempts_left - 1;
            AfterBusy::Retry
        } else if self.took_over {
            AfterBusy::StillBusy
        } else if self.no_bus {
            AfterBusy::NoBus
        } else {
            AfterBusy::Fail
        }
    }
}

/// A busy device is tried again only after the card was taken from someone, and never once no
/// tries are left.
pub proof fn only_a_card_taken_from_someone_is_retried(open: ReservedOpen)
    requires
        open.wf(),
    ensures
        open.verdict() is Retry ==> open.from_another(),
        open.left() == 0 ==> !(open.verdict() is Retry),
{
}

/// The note on stderr about a missing bus.
pub fn no_bus_note(why: &str) -> (r: String)
    ensures
        r@ == "phonia: not asking the desktop to release the DAC: "@ + why@,
{
    crate::text::joined("phonia: not asking the desktop to release the DAC: ", why)
}

} // verus!
