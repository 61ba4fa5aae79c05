//! The playback queue: an ordered list of tracks with shuffle and repeat, which the engine asks
//! for the next track to play.
//!
//! Every entry has an [`ItemId`]; the [`TrackRef`] the engine sees encodes that id rather than
//! the source, so a track queued twice is two distinct entries and "play this entry" is
//! unambiguous.

pub mod chance;
pub mod cycles;
pub mod inner;
pub mod laws;
pub mod model;
pub mod places;
pub mod turns;

use self::chance::random_seed;
use self::inner::{Inner, Peeked};
use self::model::{ids_of, meta_recorded, reordered, Offer, QueueModel};
use crate::engine::supplier::{Advance, Peek};
use crate::engine::types::{copied_text, TrackMeta, TrackRef};
use crate::text::{
    decimal, decimal_reads_back, decimal_text, parse_u64, parsed, quoted, quoted_text,
};
use crate::time::Duration;
use vstd::prelude::*;

verus! {

/// Identifies one entry of a queue for as long as the queue lives. Never reused, even after the
/// entry is removed.
#[derive(Debug, Clone, Copy, PartialEq, Eq, Hash, PartialOrd, Ord, Structural)]
pub struct ItemId(pub u64);

impl ItemId {
    /// The reference the engine is given for this entry: the id in decimal.
    pub fn track_ref(self) -> (r: TrackRef)
        ensures
            r.0@ == decimal_text(self.0 as nat),
    {
        TrackRef(decimal(self.0))
    }

    /// The entry a reference from [`ItemId::track_ref`] stands for.
    pub fn from_ref(track: &TrackRef) -> (r: Option<ItemId>)
        ensures
            match r {
                Some(id) => parsed(track.0@, u64::MAX as nat) == Some(id.0 as nat),
                None => parsed(track.0@, u64::MAX as nat) is None,
            },
    {
        match parse_u64(track.0.as_str()) {
            Some(n) => Some(ItemId(n)),
            None => None,
        }
    }
}

/// An id survives the round trip through the reference that the engine is given: what
/// [`ItemId::from_ref`] reads from the text of [`ItemId::track_ref`] is the id.
pub proof fn item_ids_round_trip(id: ItemId)
    ensures
        parsed(decimal_text(id.0 as nat), u64::MAX as nat) == Some(id.0 as nat),
{
    decimal_reads_back(id.0);
}

/// What follows the end of a track, and of the queue.
#[derive(Debug, Clone, Copy, PartialEq, Eq, Structural)]
pub enum Repeat {
    /// The queue ends after its last entry.
    Off,
    /// Repeat the entry that just played, until the user skips.
    One,
    /// Start over after the last entry.
    All,
}

impl Default for Repeat {
    fn default() -> (r: Self)
        ensures
            r is Off,
    {
        Repeat::Off
    }
}

/// What a queue entry plays: a reference only the opener understands, plus what is already known
/// about it (more is filled in once it has been opened).
#[derive(Debug, PartialEq, Eq)]
pub struct QueueTrack {
    /// What the opener is given.
    pub source: TrackRef,
    /// The title, if known.
    pub title: Option<String>,
    /// The length, if known.
    pub duration: Option<Duration>,
}

impl Clone for QueueTrack {
    fn clone(&self) -> (r: Self)
        ensures
            r == *self,
    {
        QueueTrack {
            source: self.source.clone(),
            title: copied_text(&self.title),
            duration: self.duration,
        }
    }
}

/// One entry of a queue.
#[derive(Debug, PartialEq, Eq)]
pub struct QueueItem {
    /// Which entry it is.
    pub id: ItemId,
    /// What it plays.
    pub track: QueueTrack,
}

impl Clone for QueueItem {
    fn clone(&self) -> (r: Self)
        ensures
            r == *self,
    {
        QueueItem { id: self.id, track: self.track.clone() }
    }
}

/// The whole queue at one moment, for a list to render.
#[derive(Debug, PartialEq, Eq)]
pub struct QueueSnapshot {
    /// Changes with every change.
    pub version: u64,
    /// The entries in queue order.
    pub items: Vec<QueueItem>,
    /// The order they will be played in: the same ids as `items`, shuffled when `shuffle` is on.
    pub order: Vec<ItemId>,
    /// The entry that is playing, or was last.
    pub current: Option<ItemId>,
    /// Whether the play order is shuffled.
    pub shuffle: bool,
    /// The repeat mode.
    pub repeat: Repeat,
}

impl QueueSnapshot {
    /// Whether this is what a list shows of `queue`.
    pub open spec fn shows(self, queue: QueueModel) -> bool {
        &&& self.version == queue.version
        &&& self.items@ == queue.items
        &&& self.order@ == queue.order
        &&& self.current == queue.current
        &&& self.shuffle == queue.shuffle
        &&& self.repeat == queue.repeat
    }
}

impl Clone for QueueSnapshot {
    fn clone(&self) -> (r: Self)
        ensures
            forall|queue: QueueModel| self.shows(queue) == r.shows(queue),
    {
        let mut items: Vec<QueueItem> = Vec::new();
        let mut i: usize = 0;
        while i < self.items.len()
            invariant
                i <= self.items.len(),
                items@ == self.items@.take(i as int),
            decreases self.items.len() - i,
        {
            items.push(self.items[i].clone());
            assert(self.items@.take(i + 1) =~= self.items@.take(i as int).push(
                self.items@[i as int],
            ));
            i += 1;
        }
        assert(self.items@.take(self.items@.len() as int) =~= self.items@);
        let mut order: Vec<ItemId> = Vec::new();
        let mut j: usize = 0;
        while j < self.order.len()
            invariant
                j <= self.order.len(),
                order@ == self.order@.take(j as int),
            decreases self.order.len() - j,
        {
            order.push(self.order[j]);
            assert(self.order@.take(j + 1) =~= self.order@.take(j as int).push(
                self.order@[j as int],
            ));
            j += 1;
        }
        assert(self.order@.take(self.order@.len() as int) =~= self.order@);
        QueueSnapshot {
            version: self.version,
            items,
            order,
            current: self.current,
            shuffle: self.shuffle,
            repeat: self.repeat,
        }
    }
}

/// Why an entry can't be opened.
#[derive(Debug, PartialEq, Eq)]
pub enum EntryError {
    /// The reference is none that the queue handed out.
    NotAnEntry(String),
    /// The entry was removed in the meantime.
    Gone(ItemId),
}

impl EntryError {
    /// What [`EntryError::message`] says.
    pub open spec fn text(self) -> Seq<char> {
        match self {
            EntryError::NotAnEntry(track) => quoted_text(track@) + " is not a queue entry"@,
            EntryError::Gone(id) => "the queue entry "@ + decimal_text(id.0 as nat)
                + " no longer exists"@,
        }
    }

    /// What to tell the user.
    pub fn message(&self) -> (r: String)
        ensures
            r@ == self.text(),
    {
        let mut text = String::new();
        match self {
            EntryError::NotAnEntry(track) => {
                text.push_str(quoted(track.as_str()).as_str());
                text.push_str(" is not a queue entry");
            },
            EntryError::Gone(id) => {
                text.push_str("the queue entry ");
                text.push_str(decimal(id.0).as_str());
                text.push_str(" no longer exists");
            },
        }
        assert(text@ =~= self.text());
        text
    }
}

/// Either of two, the first if it is there.
pub open spec fn either<A>(first: Option<A>, second: Option<A>) -> Option<A> {
    if first is Some {
        first
    } else {
        second
    }
}

/// What the engine is handed for entry `item` once its audio was opened. The engine identifies the
/// track by the reference in it, and reopens it by that when it seeks in a stream that can't
/// rewind: it has to be one the queue understands. What opening did not reveal is taken from the
/// queue.
pub fn entry_meta(item: &QueueItem, found: TrackMeta) -> (r: TrackMeta)
    ensures
        r.track.0@ == decimal_text(item.id.0 as nat),
        r.title == either(found.title, item.track.title),
        r.duration == either(found.duration, item.track.duration),
{
    let title = match found.title {
        Some(title) => Some(title),
        None => copied_text(&item.track.title),
    };
    let duration = match found.duration {
        Some(duration) => Some(duration),
        None => item.track.duration,
    };
    TrackMeta { track: item.id.track_ref(), title, duration }
}

/// A playback queue, along with what a list shows of it: that is made anew with every change, so
/// that it never has to wait for whoever edits.
pub struct Queue {
    inner: Inner,
    published: QueueSnapshot,
}

impl View for Queue {
    type V = QueueModel;

    closed spec fn view(&self) -> QueueModel {
        self.inner@
    }
}

impl Queue {
    /// What holds of a queue at every moment: what a list shows is what the queue holds.
    pub closed spec fn wf(self) -> bool {
        self@.wf() && self.published.shows(self@)
    }

    /// A queue that holds together has a state that does.
    pub proof fn holds_together(self)
        requires
            self.wf(),
        ensures
            self@.wf(),
    {
    }

    /// An empty queue whose shuffles are random.
    pub fn new() -> (r: Self)
        ensures
            exists|seed: u64| r@ == #[trigger] QueueModel::empty(seed),
            r.wf(),
    {
        Queue::with_seed(random_seed())
    }

    /// An empty queue whose shuffles are reproducible from `seed`.
    pub fn with_seed(seed: u64) -> (r: Self)
        ensures
            r@ == QueueModel::empty(seed),
            r.wf(),
    {
        let inner = Inner::new(seed);
        let published = inner.snapshot();
        Queue { inner, published }
    }

    /// Publishes what a list shows if it changed since it had version `before`.
    fn publish(&mut self, before: u64)
        requires
            old(self).inner@.wf(),
            old(self).inner@.version == before ==> old(self).published.shows(old(self).inner@),
        ensures
            final(self)@ == old(self)@,
            final(self).wf(),
    {
        if self.inner.version() != before {
            self.published = self.inner.snapshot();
        }
    }

    /// Appends tracks to the end, returning their ids.
    pub fn add(&mut self, tracks: Vec<QueueTrack>) -> (r: Vec<ItemId>)
        requires
            old(self).wf(),
            old(self)@.next_id + tracks@.len() <= u64::MAX,
        ensures
            final(self)@ == old(self)@.insert(old(self)@.items.len(), tracks@),
            r@ == ids_of(old(self)@.new_items(tracks@)),
            final(self).wf(),
    {
        let before: u64 = self.inner.version();
        let ids = self.inner.add(tracks);
        self.publish(before);
        ids
    }

    /// Inserts tracks at `at` (clamped) in queue order.
    pub fn insert(&mut self, at: usize, tracks: Vec<QueueTrack>) -> (r: Vec<ItemId>)
        requires
            old(self).wf(),
            old(self)@.next_id + tracks@.len() <= u64::MAX,
        ensures
            final(self)@ == old(self)@.insert(at as nat, tracks@),
            r@ == ids_of(old(self)@.new_items(tracks@)),
            final(self).wf(),
    {
        let before: u64 = self.inner.version();
        let ids = self.inner.insert(at, tracks);
        self.publish(before);
        ids
    }

    /// Inserts tracks right after the one playing.
    pub fn play_next(&mut self, tracks: Vec<QueueTrack>) -> (r: Vec<ItemId>)
        requires
            old(self).wf(),
            old(self)@.next_id + tracks@.len() <= u64::MAX,
        ensures
            final(self)@ == old(self)@.play_next(tracks@),
            r@ == ids_of(old(self)@.new_items(tracks@)),
            final(self).wf(),
    {
        let before: u64 = self.inner.version();
        let ids = self.inner.play_next(tracks);
        self.publish(before);
        ids
    }

    /// Removes entries, returning how many existed. The queue does not stop or skip a track that
    /// is playing; whoever drives the engine decides what to do about that.
    pub fn remove(&mut self, ids: &[ItemId]) -> (r: usize)
        requires
            old(self).wf(),
        ensures
            r == old(self)@.removals(ids@),
            final(self)@ == old(self)@.remove(ids@),
            final(self).wf(),
    {
        let before: u64 = self.inner.version();
        let removed: usize = self.inner.remove(ids);
        proof {
            laws::removing_what_does_not_exist_changes_nothing(old(self)@, ids@);
        }
        self.publish(before);
        removed
    }

    /// Moves an entry to position `to` in queue order (clamped). `false` if there is no such
    /// entry.
    pub fn move_to(&mut self, id: ItemId, to: usize) -> (r: bool)
        requires
            old(self).wf(),
        ensures
            r == old(self)@.has(id),
            final(self)@ == old(self)@.move_to(id, to as nat),
            final(self).wf(),
    {
        let before: u64 = self.inner.version();
        let moved = self.inner.move_to(id, to);
        self.publish(before);
        moved
    }

    /// Removes every entry.
    pub fn clear(&mut self)
        requires
            old(self).wf(),
        ensures
            final(self)@ == old(self)@.clear(),
            final(self).wf(),
    {
        let before: u64 = self.inner.version();
        self.inner.clear();
        self.publish(before);
    }

    /// Turns shuffle on or off. Turning it on keeps the current entry current, at the head of a
    /// shuffled order of the rest; turning it off returns to queue order.
    pub fn set_shuffle(&mut self, shuffle: bool)
        requires
            old(self).wf(),
        ensures
            final(self)@ == old(self)@.set_shuffle(shuffle),
            !old(self)@.shuffle && shuffle ==> {
                &&& reordered(final(self)@.order, old(self)@.ids())
                &&& old(self)@.current matches Some(id) ==> final(self)@.order[0] == id
            },
            final(self).wf(),
    {
        let before: u64 = self.inner.version();
        self.inner.set_shuffle(shuffle);
        self.publish(before);
    }

    /// Sets what follows the end of a track, and of the queue.
    pub fn set_repeat(&mut self, repeat: Repeat)
        requires
            old(self).wf(),
        ensures
            final(self)@ == old(self)@.set_repeat(repeat),
            final(self).wf(),
    {
        let before: u64 = self.inner.version();
        self.inner.set_repeat(repeat);
        self.publish(before);
    }

    /// What a list shows.
    pub fn snapshot(&self) -> (r: QueueSnapshot)
        requires
            self.wf(),
        ensures
            r.shows(self@),
    {
        self.published.clone()
    }

    /// Whether there is an entry `id`.
    pub fn contains(&self, id: ItemId) -> (r: bool)
        ensures
            r == self@.has(id),
    {
        self.inner.item(id).is_some()
    }

    /// The entry that is playing, or was last.
    pub fn current(&self) -> (r: Option<ItemId>)
        requires
            self.wf(),
        ensures
            r == self@.current,
    {
        self.published.current
    }

    /// Fills in the title and length of an entry that didn't have them, from what opening it
    /// revealed.
    pub fn record_meta(&mut self, id: ItemId, meta: &TrackMeta)
        requires
            old(self).wf(),
        ensures
            meta_recorded(
                old(self)@,
                final(self)@,
                id,
                match meta.title {
                    Some(title) => Some(title@),
                    None => None,
                },
                meta.duration,
            ),
            final(self).wf(),
    {
        let before: u64 = self.inner.version();
        let title = match &meta.title {
            Some(title) => Some(title.as_str()),
            None => None,
        };
        self.inner.record_meta(id, title, meta.duration);
        proof {
            if old(self)@.has(id) && self.inner@.version == before {
                let at = old(self)@.ids().index_of_first(id)->0;
                old(self)@.ids().index_of_first_ensures(id);
                assert(self.inner@.items[at] == old(self)@.items[at]);
                assert(self.inner@.items =~= old(self)@.items);
            }
        }
        self.publish(before);
    }

    /// Which track the engine is to play for `how`, by the reference that the queue understands.
    pub fn advance(&mut self, how: Advance) -> (r: Option<TrackRef>)
        requires
            old(self).wf(),
        ensures
            match old(self)@.offer(how) {
                Offer::Answer(answer) => {
                    &&& final(self)@ == old(self)@.offered(how, answer)
                    &&& match answer {
                        Some(id) => r matches Some(track) && track.0@ == decimal_text(id.0 as nat),
                        None => r is None,
                    }
                },
                Offer::NewCycle => {
                    let (order, rng) = old(self)@.next_cycle();
                    &&& old(self)@.new_cycle(order)
                    &&& final(self)@ == old(self)@.cycled(how, order, rng)
                    &&& r matches Some(track) && track.0@ == decimal_text(order[0].0 as nat)
                },
            },
            final(self).wf(),
    {
        let before: u64 = self.inner.version();
        let answer = self.inner.advance(how);
        self.publish(before);
        match answer {
            Some(id) => Some(id.track_ref()),
            None => None,
        }
    }

    /// Which track the engine would be given for `how`, without moving to it.
    pub fn peek(&self, how: Advance) -> (r: Peek)
        requires
            self.wf(),
        ensures
            match self@.offer(how) {
                Offer::Answer(Some(id)) => r matches Peek::Next(track) && track.0@ == decimal_text(
                    id.0 as nat,
                ),
                Offer::Answer(None) => r is End,
                Offer::NewCycle => r is Unknown,
            },
    {
        match self.inner.peek(how) {
            Peeked::Next(id) => Peek::Next(id.track_ref()),
            Peeked::End => Peek::End,
            Peeked::Unknown => Peek::Unknown,
        }
    }

    /// The engine began to play a track that was opened ahead: it is now the current one. Returns
    /// whether it still exists.
    pub fn started(&mut self, track: &TrackRef) -> (r: bool)
        requires
            old(self).wf(),
        ensures
            match parsed(track.0@, u64::MAX as nat) {
                Some(n) => r == old(self)@.has(ItemId(n as u64)) && final(self)@ == old(self)@.commit(ItemId(n as u64)),
                None => !r && final(self)@ == old(self)@,
            },
            final(self).wf(),
    {
        match ItemId::from_ref(track) {
            Some(id) => {
                let before: u64 = self.inner.version();
                let exists = self.inner.commit(id);
                self.publish(before);
                exists
            },
            None => false,
        }
    }

    /// The entry whose audio is to be opened for a reference. With `commit` it becomes the current
    /// one as it is opened, not when it was offered: an offer can be abandoned before anything is
    /// opened.
    pub fn open_entry(&mut self, track: &TrackRef, commit: bool) -> (r: Result<
        QueueItem,
        EntryError,
    >)
        requires
            old(self).wf(),
        ensures
            match parsed(track.0@, u64::MAX as nat) {
                Some(n) => {
                    let id = ItemId(n as u64);
                    &&& final(self)@ == if commit {
                        old(self)@.commit(id)
                    } else {
                        old(self)@
                    }
                    &&& if old(self)@.has(id) {
                        r matches Ok(item) && item.id == id && item
                            == old(self)@.items[old(self)@.ids().index_of_first(id)->0]
                    } else {
                        r == Err::<QueueItem, EntryError>(EntryError::Gone(id))
                    }
                },
                None => r == Err::<QueueItem, EntryError>(EntryError::NotAnEntry(track.0)) && final(self)@ == old(self)@,
            },
            final(self).wf(),
    {
        let id = match ItemId::from_ref(track) {
            Some(id) => id,
            None => {
                return Err(EntryError::NotAnEntry(track.0.clone()));
            },
        };
        if commit {
            let before: u64 = self.inner.version();
            let exists = self.inner.commit(id);
            self.publish(before);
            if !exists {
                return Err(EntryError::Gone(id));
            }
        }
        match self.inner.item(id) {
            Some(item) => Ok(item.clone()),
            None => Err(EntryError::Gone(id)),
        }
    }

    /// An entry that is to be played is opened: it becomes the current one.
    pub fn open(&mut self, track: &TrackRef) -> (r: Result<QueueItem, EntryError>)
        requires
            old(self).wf(),
        ensures
            match parsed(track.0@, u64::MAX as nat) {
                Some(n) => {
                    let id = ItemId(n as u64);
                    &&& final(self)@ == old(self)@.commit(id)
                    &&& if old(self)@.has(id) {
                        r matches Ok(item) && item.id == id && item
                            == old(self)@.items[old(self)@.ids().index_of_first(id)->0]
                    } else {
                        r == Err::<QueueItem, EntryError>(EntryError::Gone(id))
                    }
                },
                None => r == Err::<QueueItem, EntryError>(EntryError::NotAnEntry(track.0)) && final(self)@ == old(self)@,
            },
            final(self).wf(),
    {
        self.open_entry(track, true)
    }

    /// An entry is opened before its turn comes. It does not become the current one: it may never
    /// be played (the queue can change in the meantime).
    pub fn open_ahead(&mut self, track: &TrackRef) -> (r: Result<QueueItem, EntryError>)
        requires
            old(self).wf(),
        ensures
            final(self)@ == old(self)@,
            match parsed(track.0@, u64::MAX as nat) {
                Some(n) => if old(self)@.has(ItemId(n as u64)) {
                    r matches Ok(item) && item.id == ItemId(n as u64) && item
                        == old(self)@.items[old(self)@.ids().index_of_first(
                        ItemId(n as u64),
                    )->0]
                } else {
                    r == Err::<QueueItem, EntryError>(EntryError::Gone(ItemId(n as u64)))
                },
                None => r == Err::<QueueItem, EntryError>(EntryError::NotAnEntry(track.0)),
            },
            final(self).wf(),
    {
        self.open_entry(track, false)
    }
}

/// A reference that [`Queue::advance`] gave opens the entry that it was given for, as long as that
/// exists.
pub proof fn what_is_offered_can_be_opened(queue: QueueModel, how: Advance, id: ItemId)
    requires
        queue.wf(),
        queue.offer(how) == Offer::Answer(Some(id)),
    ensures
        parsed(decimal_text(id.0 as nat), u64::MAX as nat) == Some(id.0 as nat),
        queue.offered(how, Some(id)).has(id),
{
    item_ids_round_trip(id);
    laws::what_is_offered_exists(queue, how);
}

} // verus!
