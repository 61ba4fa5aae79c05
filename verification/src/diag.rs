//! What the library says about itself while it works (a stream buffering, a packet dropped, an
//! underrun), as opposed to what a command asks it to print: how much of it is printed.

use std::cmp::Ordering;
use vstd::prelude::*;
use vstd::std_specs::cmp::PartialOrdSpec;

verus! {

/// How much the library prints. Ordered: each level has what the ones below it have.
#[derive(Debug, Clone, Copy, PartialEq, Eq, Ord, Structural)]
pub enum Level {
    /// Nothing.
    Silent,
    /// Only warnings, on stderr.
    Warnings,
    /// Warnings and progress notes (the default).
    All,
}

impl Level {
    /// How much is printed, as a number.
    pub open spec fn rank(self) -> nat {
        match self {
            Level::Silent => 0,
            Level::Warnings => 1,
            Level::All => 2,
        }
    }

    /// Whether warnings are printed.
    pub open spec fn has_warnings(self) -> bool {
        self.rank() >= Level::Warnings.rank()
    }

    /// Whether progress notes are printed.
    pub open spec fn has_notes(self) -> bool {
        self.rank() >= Level::All.rank()
    }
}

/// How two levels compare.
pub open spec fn compared(a: Level, b: Level) -> Ordering {
    if a.rank() < b.rank() {
        Ordering::Less
    } else if a.rank() == b.rank() {
        Ordering::Equal
    } else {
        Ordering::Greater
    }
}

impl vstd::std_specs::cmp::PartialOrdSpecImpl for Level {
    open spec fn obeys_partial_cmp_spec() -> bool {
        true
    }

    open spec fn partial_cmp_spec(&self, other: &Level) -> Option<Ordering> {
        Some(compared(*self, *other))
    }
}

impl PartialOrd for Level {
    fn partial_cmp(&self, other: &Level) -> (r: Option<Ordering>) {
        match (*self, *other) {
            (Level::Silent, Level::Silent) => Some(Ordering::Equal),
            (Level::Silent, _) => Some(Ordering::Less),
            (Level::Warnings, Level::Silent) => Some(Ordering::Greater),
            (Level::Warnings, Level::Warnings) => Some(Ordering::Equal),
            (Level::Warnings, Level::All) => Some(Ordering::Less),
            (Level::All, Level::All) => Some(Ordering::Equal),
            (Level::All, _) => Some(Ordering::Greater),
        }
    }
}

/// The levels are ordered, silence first and everything last; and each has what the ones below it
/// have.
pub proof fn levels_are_ordered(a: Level, b: Level)
    ensures
        Level::Silent.partial_cmp_spec(&Level::Warnings) == Some(Ordering::Less),
        Level::Warnings.partial_cmp_spec(&Level::All) == Some(Ordering::Less),
        a.partial_cmp_spec(&b) == Some(Ordering::Less) ==> b.partial_cmp_spec(&a) == Some(
            Ordering::Greater,
        ),
        a.partial_cmp_spec(&b) == Some(Ordering::Equal) <==> a == b,
        a.partial_cmp_spec(&b) == Some(Ordering::Less) ==> {
            &&& a.has_warnings() ==> b.has_warnings()
            &&& a.has_notes() ==> b.has_notes()
        },
{
}

/// The level in force.
#[derive(Debug, Clone, Copy, PartialEq, Eq, Structural)]
pub struct Diag {
    level: Level,
}

impl View for Diag {
    type V = Level;

    closed spec fn view(&self) -> Level {
        self.level
    }
}

impl Diag {
    /// The library talks by default.
    pub fn new() -> (r: Self)
        ensures
            r@ is All,
    {
        Diag { level: Level::All }
    }

    /// Sets how much is printed.
    pub fn set_level(&mut self, level: Level)
        ensures
            final(self)@ == level,
    {
        self.level = level;
    }

    /// How much is printed.
    pub fn level(&self) -> (r: Level)
        ensures
            r == self@,
    {
        self.level
    }

    /// Stops the library printing anything. What a daemon calls first thing.
    pub fn silence(&mut self)
        ensures
            final(self)@ is Silent,
    {
        self.set_level(Level::Silent);
    }

    /// Whether progress notes are printed.
    pub fn notes(&self) -> (r: bool)
        ensures
            r == self@.has_notes(),
            r == (self@ is All),
    {
        self.level >= Level::All
    }

    /// Whether warnings are printed.
    pub fn warnings(&self) -> (r: bool)
        ensures
            r == self@.has_warnings(),
            r == !(self@ is Silent),
    {
        self.level >= Level::Warnings
    }
}

/// What can be done to the level in force.
pub enum LevelCall {
    /// [`Diag::set_level`].
    SetLevel(Level),
    /// [`Diag::silence`].
    Silence,
}

impl LevelCall {
    /// The level that it sets.
    pub open spec fn sets(self) -> Level {
        match self {
            LevelCall::SetLevel(level) => level,
            LevelCall::Silence => Level::Silent,
        }
    }
}

/// Whether `levels` are the levels in force at first and after each of `calls`.
pub open spec fn levels_follow(levels: Seq<Diag>, calls: Seq<LevelCall>) -> bool {
    &&& levels.len() == calls.len() + 1
    &&& levels[0]@ is All
    &&& forall|i: int| 0 <= i < calls.len() ==> levels[i + 1]@ == (#[trigger] calls[i]).sets()
}

/// The level in force is the last one that was set, or everything if none was.
pub proof fn the_last_level_set_is_in_force(levels: Seq<Diag>, calls: Seq<LevelCall>)
    requires
        levels_follow(levels, calls),
    ensures
        levels.last()@ == if calls.len() == 0 {
            Level::All
        } else {
            calls.last().sets()
        },
{
}

impl Default for Diag {
    fn default() -> (r: Self)
        ensures
            r@ is All,
    {
        Diag::new()
    }
}

/// Warnings are printed unless nothing is, and progress notes only when everything is.
pub proof fn warnings_are_printed_unless_nothing_is(level: Level)
    ensures
        level.has_warnings() <==> !(level is Silent),
        level.has_notes() <==> level is All,
        LevelCall::Silence.sets() is Silent,
        LevelCall::SetLevel(level).sets() == level,
{
}

} // verus!
