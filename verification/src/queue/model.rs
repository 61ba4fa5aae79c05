//! What the queue does, as a function from one state to the next.

use super::chance::{generator_of, shuffle_of};
use super::{ItemId, QueueItem, QueueTrack, Repeat};
use crate::engine::supplier::Advance;
use rand::rngs::StdRng;
use vstd::prelude::*;

verus! {

/// How many played entries `Previous` can walk back through.
pub const HISTORY_LIMIT: usize = 200;

/// The ids of a row of entries.
pub open spec fn ids_of(items: Seq<QueueItem>) -> Seq<ItemId> {
    items.map_values(|item: QueueItem| item.id)
}

/// `s` with `new` put in before position `at`.
pub open spec fn spliced<A>(s: Seq<A>, at: int, new: Seq<A>) -> Seq<A> {
    s.take(at) + new + s.skip(at)
}

/// `s` with every `id` taken out.
pub open spec fn without(s: Seq<ItemId>, id: ItemId) -> Seq<ItemId>
    decreases s.len(),
{
    if s.len() == 0 {
        s
    } else if s.last() == id {
        without(s.drop_last(), id)
    } else {
        without(s.drop_last(), id).push(s.last())
    }
}

/// The smaller of two numbers.
pub open spec fn lesser(a: nat, b: nat) -> nat {
    if a <= b {
        a
    } else {
        b
    }
}

/// Whether two rows of ids hold the same ids, each as often: one is a reordering of the other.
pub open spec fn reordered(a: Seq<ItemId>, b: Seq<ItemId>) -> bool {
    a.to_multiset() == b.to_multiset()
}

/// What the queue answers to the question what comes next.
pub enum Offer {
    /// This entry, or none.
    Answer(Option<ItemId>),
    /// The first entry of a new cycle, in an order that is yet to be shuffled.
    NewCycle,
}

/// The queue at one moment.
#[verifier::ext_equal]
pub struct QueueModel {
    /// The id that the next new entry gets.
    pub next_id: nat,
    /// The queue as a list shows it.
    pub items: Seq<QueueItem>,
    /// The order entries are played in: the same as `items` unless shuffled.
    pub order: Seq<ItemId>,
    /// The entry the engine last opened.
    pub current: Option<ItemId>,
    /// What was last offered, until the engine actually opens something. Lets two questions in a
    /// row chain, and keeps a question from moving the cursor for a load the engine may abandon.
    pub pending: Option<ItemId>,
    /// Whether `pending` was the answer to `Previous`: opening it is then a step back, and the
    /// entry being left must not be recorded as played before it.
    pub pending_backward: bool,
    /// Entries played before `current`, most recent last.
    pub history: Seq<ItemId>,
    /// Set when the current entry was removed: the place in the play order that it had, which now
    /// holds whatever followed it.
    pub vacated: Option<nat>,
    /// What follows the end of a track, and of the queue.
    pub repeat: Repeat,
    /// Whether the play order is shuffled.
    pub shuffle: bool,
    /// What the next shuffle draws from.
    pub rng: StdRng,
    /// Changes with every change that a list would show.
    pub version: u64,
}

impl QueueModel {
    /// An empty queue, whose shuffles draw from the generator of `seed`.
    pub open spec fn empty(seed: u64) -> QueueModel {
        QueueModel {
            next_id: 1,
            items: Seq::empty(),
            order: Seq::empty(),
            current: None,
            pending: None,
            pending_backward: false,
            history: Seq::empty(),
            vacated: None,
            repeat: Repeat::Off,
            shuffle: false,
            rng: generator_of(seed),
            version: 0,
        }
    }

    /// The ids of the entries, in queue order.
    pub open spec fn ids(self) -> Seq<ItemId> {
        ids_of(self.items)
    }

    /// Whether there is an entry `id`.
    pub open spec fn has(self, id: ItemId) -> bool {
        self.ids().contains(id)
    }

    /// What holds of the queue at every moment: the ids are unique and were all handed out
    /// before, the play order holds exactly the entries, and the cursor, the offer and the
    /// history only mention entries that exist.
    pub open spec fn wf(self) -> bool {
        &&& self.ids().no_duplicates()
        &&& self.order.no_duplicates()
        &&& self.order.len() == self.items.len()
        &&& forall|id: ItemId| #[trigger] self.order.contains(id) <==> self.has(id)
        &&& forall|i: int| 0 <= i < self.items.len() ==> 0 < (#[trigger] self.items[i]).id.0
            < self.next_id
        &&& 1 <= self.next_id <= u64::MAX
        &&& self.current matches Some(id) ==> self.has(id)
        &&& self.pending matches Some(id) ==> self.has(id)
        &&& forall|i: int| 0 <= i < self.history.len() ==> self.has(#[trigger] self.history[i])
        &&& self.history.len() <= HISTORY_LIMIT
        &&& self.vacated matches Some(slot) ==> slot <= self.order.len() && self.current is None
        &&& !self.shuffle ==> self.order == self.ids()
    }

    /// A change that a list would show.
    pub open spec fn changed(self) -> QueueModel {
        QueueModel { version: self.version.wrapping_add(1), ..self }
    }

    // ---- editing -----------------------------------------------------------------------------

    /// New entries for `tracks`.
    pub open spec fn new_items(self, tracks: Seq<QueueTrack>) -> Seq<QueueItem> {
        Seq::new(
            tracks.len(),
            |i: int| QueueItem { id: ItemId((self.next_id + i) as u64), track: tracks[i] },
        )
    }

    /// Entries for `tracks` put in at `items_at` in the queue and at `order_at` in the play
    /// order. Those put in before the place that a removed entry left push it along; one put in
    /// exactly there takes it over.
    pub open spec fn put_in(
        self,
        items_at: nat,
        order_at: nat,
        tracks: Seq<QueueTrack>,
    ) -> QueueModel {
        let new = self.new_items(tracks);
        QueueModel {
            next_id: self.next_id + tracks.len(),
            items: spliced(self.items, items_at as int, new),
            order: spliced(self.order, order_at as int, ids_of(new)),
            vacated: match self.vacated {
                Some(slot) if order_at < slot => Some(slot + tracks.len()),
                other => other,
            },
            ..self
        }.changed()
    }

    /// Tracks inserted at `at` in queue order, or at the end if there are fewer entries. While
    /// shuffled they go to the end of the play order: they are played once this cycle, and where
    /// they land is predictable.
    pub open spec fn insert(self, at: nat, tracks: Seq<QueueTrack>) -> QueueModel {
        let at = lesser(at, self.items.len());
        self.put_in(
            at,
            if self.shuffle {
                self.order.len()
            } else {
                at
            },
            tracks,
        )
    }

    /// Where in a row of ids the tracks to be played next go: right after the current entry, or
    /// to the place it left, or first.
    pub open spec fn next_place(self, row: Seq<ItemId>) -> nat {
        match self.current {
            Some(id) if row.contains(id) => (row.index_of_first(id)->0 + 1) as nat,
            _ => match self.vacated {
                Some(slot) => lesser(slot, row.len()),
                None => 0,
            },
        }
    }

    /// Tracks inserted right after the entry that is playing, in both the queue and the play
    /// order.
    pub open spec fn play_next(self, tracks: Seq<QueueTrack>) -> QueueModel {
        self.put_in(self.next_place(self.ids()), self.next_place(self.order), tracks)
    }

    /// One entry removed, if it exists. If it was the current one, its place in the play order
    /// is remembered.
    pub open spec fn remove_one(self, id: ItemId) -> QueueModel {
        if !self.has(id) {
            self
        } else {
            let slot = self.order.index_of_first(id)->0;
            QueueModel {
                items: self.items.remove(self.ids().index_of_first(id)->0),
                order: self.order.remove(slot),
                current: if self.current == Some(id) {
                    None
                } else {
                    self.current
                },
                vacated: if self.current == Some(id) {
                    Some(slot as nat)
                } else {
                    match self.vacated {
                        Some(vacated) if slot < vacated => Some((vacated - 1) as nat),
                        other => other,
                    }
                },
                pending: if self.pending == Some(id) {
                    None
                } else {
                    self.pending
                },
                history: without(self.history, id),
                ..self
            }
        }
    }

    /// Entries removed one after the other.
    pub open spec fn remove_each(self, ids: Seq<ItemId>) -> QueueModel
        decreases ids.len(),
    {
        if ids.len() == 0 {
            self
        } else {
            self.remove_each(ids.drop_last()).remove_one(ids.last())
        }
    }

    /// How many of `ids` there are to remove, one after the other.
    pub open spec fn removals(self, ids: Seq<ItemId>) -> nat
        decreases ids.len(),
    {
        if ids.len() == 0 {
            0
        } else {
            self.removals(ids.drop_last()) + if self.remove_each(ids.drop_last()).has(ids.last()) {
                1nat
            } else {
                0
            }
        }
    }

    /// Entries removed.
    pub open spec fn remove(self, ids: Seq<ItemId>) -> QueueModel {
        if self.removals(ids) > 0 {
            self.remove_each(ids).changed()
        } else {
            self.remove_each(ids)
        }
    }

    /// An entry moved to position `to` in queue order, or to the end if there are fewer. The
    /// cursor stays on the entry it was on. While shuffled the play order is left alone.
    pub open spec fn move_to(self, id: ItemId, to: nat) -> QueueModel {
        if !self.has(id) {
            self
        } else {
            let from = self.ids().index_of_first(id)->0;
            let rest = self.items.remove(from);
            let items = rest.insert(lesser(to, rest.len()) as int, self.items[from]);
            QueueModel {
                items,
                order: if self.shuffle {
                    self.order
                } else {
                    ids_of(items)
                },
                ..self
            }.changed()
        }
    }

    /// Everything forgotten but the ids that were handed out, and the modes.
    pub open spec fn clear(self) -> QueueModel {
        QueueModel {
            items: Seq::empty(),
            order: Seq::empty(),
            current: None,
            pending: None,
            pending_backward: false,
            history: Seq::empty(),
            vacated: None,
            ..self
        }.changed()
    }

    /// What is known of an entry changed to `item`.
    pub open spec fn recorded(self, id: ItemId, item: QueueItem) -> QueueModel {
        if !self.has(id) {
            self
        } else {
            let at = self.ids().index_of_first(id)->0;
            if item == self.items[at] {
                self
            } else {
                QueueModel { items: self.items.update(at, item), ..self }.changed()
            }
        }
    }

    /// Another repeat mode.
    pub open spec fn set_repeat(self, repeat: Repeat) -> QueueModel {
        if self.repeat == repeat {
            self
        } else {
            QueueModel { repeat, ..self }.changed()
        }
    }

    /// Shuffle turned off: back to queue order, without moving the cursor.
    pub open spec fn unshuffled(self) -> QueueModel {
        QueueModel { shuffle: false, order: self.ids(), vacated: None, ..self }.changed()
    }

    /// Shuffle turned on, with `order` the shuffled play order and `rng` what is left of the
    /// generator.
    pub open spec fn shuffled(self, order: Seq<ItemId>, rng: StdRng) -> QueueModel {
        QueueModel { shuffle: true, order, rng, vacated: None, ..self }.changed()
    }

    /// The play order that turning shuffle on leads to, and what it leaves of the generator: the
    /// current entry, and then the others as the generator shuffles them.
    pub open spec fn first_cycle(self) -> (Seq<ItemId>, StdRng) {
        match self.current {
            Some(id) => {
                let others = self.ids().remove(self.ids().index_of_first(id)->0);
                let (shuffled, rng) = shuffle_of(others, self.rng);
                (seq![id] + shuffled, rng)
            },
            None => shuffle_of(self.ids(), self.rng),
        }
    }

    /// Shuffle turned on or off.
    pub open spec fn set_shuffle(self, shuffle: bool) -> QueueModel {
        if self.shuffle == shuffle {
            self
        } else if shuffle {
            self.shuffled(self.first_cycle().0, self.first_cycle().1)
        } else {
            self.unshuffled()
        }
    }

    // ---- sequencing --------------------------------------------------------------------------

    /// The entry that the next offer is measured from: whatever was last offered, or else what is
    /// playing.
    pub open spec fn base_id(self) -> Option<ItemId> {
        if self.pending is Some {
            self.pending
        } else {
            self.current
        }
    }

    /// The place in the play order of the entry that follows.
    pub open spec fn next_slot(self) -> nat {
        match self.base_id() {
            Some(id) => (self.order.index_of_first(id)->0 + 1) as nat,
            None => match self.vacated {
                Some(slot) => slot,
                None => 0,
            },
        }
    }

    /// What follows in the play order. Past its end: the start of another cycle, or nothing.
    pub open spec fn forward(self, wrap: bool) -> Offer {
        let next = self.next_slot();
        if next < self.order.len() {
            Offer::Answer(Some(self.order[next as int]))
        } else if wrap && self.order.len() > 0 {
            if self.shuffle {
                Offer::NewCycle
            } else {
                Offer::Answer(Some(self.order[0]))
            }
        } else {
            Offer::Answer(None)
        }
    }

    /// What came before. What was actually played beats what the order says, so that going back
    /// after a shuffle or a jump leads to where the listener was.
    pub open spec fn backward(self, wrap: bool) -> Option<ItemId> {
        if self.history.len() > 0 {
            Some(self.history.last())
        } else {
            match self.base_id() {
                Some(id) => {
                    let place = self.order.index_of_first(id)->0;
                    if place > 0 {
                        Some(self.order[place - 1])
                    } else if wrap {
                        Some(self.order.last())
                    } else {
                        None
                    }
                },
                None => match self.vacated {
                    Some(slot) => if slot > 0 {
                        Some(self.order[slot - 1])
                    } else {
                        None
                    },
                    None => if self.order.len() > 0 {
                        Some(self.order[0])
                    } else {
                        None
                    },
                },
            }
        }
    }

    /// What the engine should play for `how`.
    pub open spec fn offer(self, how: Advance) -> Offer {
        match how {
            Advance::Restart => Offer::Answer(self.base_id()),
            Advance::Auto => match self.repeat {
                Repeat::One => Offer::Answer(
                    if self.base_id() is Some {
                        self.base_id()
                    } else if self.order.len() > 0 {
                        Some(self.order[0])
                    } else {
                        None
                    },
                ),
                Repeat::Off => self.forward(false),
                Repeat::All => self.forward(true),
            },
            Advance::Next => self.forward(!(self.repeat is Off)),
            Advance::Previous => Offer::Answer(self.backward(self.repeat is All)),
        }
    }

    /// `answer` was offered for `how`. Nothing else about the cursor changes: it moves when the
    /// engine opens the entry.
    pub open spec fn offered(self, how: Advance, answer: Option<ItemId>) -> QueueModel {
        QueueModel {
            pending: answer,
            pending_backward: how is Previous && answer is Some,
            ..self
        }
    }

    /// Whether `order` can begin a new cycle: the same entries, not opening with the one that
    /// closed the last cycle if there is another.
    pub open spec fn new_cycle(self, order: Seq<ItemId>) -> bool {
        &&& reordered(order, self.order)
        &&& order.len() >= 2 ==> Some(order[0]) != self.base_id()
    }

    /// The play order that starting over leads to, and what it leaves of the generator: the
    /// entries shuffled anew, the first two of them swapped where that would open the new cycle
    /// with the entry that closed the last one.
    pub open spec fn next_cycle(self) -> (Seq<ItemId>, StdRng) {
        let (order, rng) = shuffle_of(self.order, self.rng);
        if order.len() >= 2 && Some(order[0]) == self.base_id() {
            (order.update(0, order[1]).update(1, order[0]), rng)
        } else {
            (order, rng)
        }
    }

    /// A new cycle begun in `order`, with its first entry offered for `how`, and `rng` left of
    /// the generator.
    pub open spec fn cycled(
        self,
        how: Advance,
        order: Seq<ItemId>,
        rng: StdRng,
    ) -> QueueModel {
        QueueModel { order, rng, ..self.offered(how, Some(order[0])) }.changed()
    }

    /// The history once `id` was opened: what was current goes to its end, unless the engine
    /// went back.
    pub open spec fn history_after(self, id: ItemId) -> Seq<ItemId> {
        if self.history.len() > 0 && self.history.last() == id {
            self.history.drop_last()
        } else if self.pending == Some(id) && self.pending_backward {
            self.history
        } else {
            match self.current {
                Some(previous) => {
                    let longer = self.history.push(previous);
                    if longer.len() > HISTORY_LIMIT {
                        longer.remove(0)
                    } else {
                        longer
                    }
                },
                None => self.history,
            }
        }
    }

    /// The engine opened `id`: it is now the current entry. Opening the current entry again
    /// changes nothing but the offer.
    pub open spec fn commit(self, id: ItemId) -> QueueModel {
        let settled = QueueModel {
            pending: None,
            pending_backward: false,
            vacated: None,
            ..self
        };
        if !self.has(id) {
            self
        } else if self.current == Some(id) {
            settled
        } else {
            QueueModel { history: self.history_after(id), current: Some(id), ..settled }.changed()
        }
    }
}

/// Whether `new` is `old` with what was missing of it filled in from `title` and `duration`.
pub open spec fn filled_in(
    old: QueueItem,
    new: QueueItem,
    title: Option<Seq<char>>,
    duration: Option<crate::time::Duration>,
) -> bool {
    &&& new.id == old.id
    &&& new.track.source == old.track.source
    &&& match (old.track.title, title) {
        (Some(_), _) => new.track.title == old.track.title,
        (None, None) => new.track.title is None,
        (None, Some(text)) => new.track.title matches Some(t) && t@ == text,
    }
    &&& new.track.duration == if old.track.duration is Some {
        old.track.duration
    } else {
        duration
    }
}

/// Whether `after` is `before` with what was missing of entry `id` filled in from `title` and
/// `duration`, and nothing else changed but the version if something was missing.
pub open spec fn meta_recorded(
    before: QueueModel,
    after: QueueModel,
    id: ItemId,
    title: Option<Seq<char>>,
    duration: Option<crate::time::Duration>,
) -> bool {
    if !before.has(id) {
        after == before
    } else {
        let at = before.ids().index_of_first(id)->0;
        &&& filled_in(before.items[at], after.items[at], title, duration)
        &&& after == before.recorded(id, after.items[at])
    }
}

} // verus!
