//! The queue's sequencing state machine: pure data, no locks, no async.

use super::chance::{seeded, shuffle_ids};
use super::laws;
use super::model::{
    ids_of, lesser, meta_recorded, reordered, spliced, without, Offer, QueueModel, HISTORY_LIMIT,
};
use super::{ItemId, QueueItem, QueueSnapshot, QueueTrack, Repeat};
use crate::engine::supplier::Advance;
use crate::time::Duration;
use rand::rngs::StdRng;
use vstd::prelude::*;

verus! {

/// What would be offered, without offering it.
#[derive(Debug, Clone, Copy, PartialEq, Eq, Structural)]
pub enum Peeked {
    /// This entry.
    Next(ItemId),
    /// Nothing.
    End,
    /// The first entry of a cycle that is yet to be shuffled.
    Unknown,
}

/// The queue's state.
pub struct Inner {
    next_id: u64,
    items: Vec<QueueItem>,
    order: Vec<ItemId>,
    current: Option<ItemId>,
    pending: Option<ItemId>,
    pending_backward: bool,
    history: Vec<ItemId>,
    vacated: Option<usize>,
    repeat: Repeat,
    shuffle: bool,
    rng: StdRng,
    version: u64,
}

impl View for Inner {
    type V = QueueModel;

    closed spec fn view(&self) -> QueueModel {
        QueueModel {
            next_id: self.next_id as nat,
            items: self.items@,
            order: self.order@,
            current: self.current,
            pending: self.pending,
            pending_backward: self.pending_backward,
            history: self.history@,
            vacated: match self.vacated {
                Some(slot) => Some(slot as nat),
                None => None,
            },
            repeat: self.repeat,
            shuffle: self.shuffle,
            rng: self.rng,
            version: self.version,
        }
    }
}

/// Where `id` is in a row of ids.
fn position_in(row: &Vec<ItemId>, id: ItemId) -> (r: Option<usize>)
    ensures
        match r {
            Some(at) => row@.index_of_first(id) == Some(at as int),
            None => row@.index_of_first(id) is None,
        },
        match r {
            Some(at) => at < row@.len() && row@[at as int] == id && row@.contains(id),
            None => !row@.contains(id),
        },
{
    let mut i: usize = 0;
    while i < row.len()
        invariant
            i <= row.len(),
            forall|j: int| 0 <= j < i ==> row@[j] != id,
        decreases row.len() - i,
    {
        if row[i] == id {
            proof {
                row@.index_of_first_ensures(id);
                assert(row@.contains(id));
            }
            return Some(i);
        }
        i += 1;
    }
    proof {
        row@.index_of_first_ensures(id);
    }
    None
}

/// The ids of a row of entries.
fn ids_in(items: &Vec<QueueItem>) -> (r: Vec<ItemId>)
    ensures
        r@ == ids_of(items@),
{
    let mut ids: Vec<ItemId> = Vec::new();
    let mut i: usize = 0;
    while i < items.len()
        invariant
            i <= items.len(),
            ids@ == ids_of(items@).take(i as int),
        decreases items.len() - i,
    {
        ids.push(items[i].id);
        assert(ids_of(items@).take(i + 1) =~= ids_of(items@).take(i as int).push(
            items@[i as int].id,
        ));
        i += 1;
    }
    assert(ids_of(items@).take(items@.len() as int) =~= ids_of(items@));
    ids
}

/// Where the entry `id` is in a row of entries.
fn item_position(items: &Vec<QueueItem>, id: ItemId) -> (r: Option<usize>)
    ensures
        match r {
            Some(at) => ids_of(items@).index_of_first(id) == Some(at as int) && at < items@.len()
                && items@[at as int].id == id && ids_of(items@).contains(id),
            None => !ids_of(items@).contains(id),
        },
{
    position_in(&ids_in(items), id)
}

/// Puts `new` in before position `at`.
fn splice<A>(row: &mut Vec<A>, at: usize, new: Vec<A>)
    requires
        at <= old(row)@.len(),
    ensures
        final(row)@ == spliced(old(row)@, at as int, new@),
{
    let ghost added = new@;
    let mut new = new;
    let mut tail: Vec<A> = row.split_off(at);
    row.append(&mut new);
    row.append(&mut tail);
    assert(row@ =~= spliced(old(row)@, at as int, added));
}

impl Inner {
    /// An empty queue, whose shuffles draw from a generator made from `seed`.
    pub fn new(seed: u64) -> (r: Self)
        ensures
            r@ == QueueModel::empty(seed),
            r@.wf(),
    {
        let r = Inner {
            next_id: 1,
            items: Vec::new(),
            order: Vec::new(),
            current: None,
            pending: None,
            pending_backward: false,
            history: Vec::new(),
            vacated: None,
            repeat: Repeat::Off,
            shuffle: false,
            rng: seeded(seed),
            version: 0,
        };
        assert(r@ =~= QueueModel::empty(seed));
        assert(r@.ids() =~= Seq::<ItemId>::empty());
        r
    }

    /// The queue as a list shows it.
    pub fn snapshot(&self) -> (r: QueueSnapshot)
        ensures
            r.shows(self@),
    {
        let mut items: Vec<QueueItem> = Vec::new();
        let mut i: usize = 0;
        while i < self.items.len()
            invariant
                i <= self.items.len(),
                items@ == self.items@.take(i as int),
            decreases self.items.len() - i,
        {
            items.push(self.items[i].clone());
            assert(self.items@.take(i + 1) =~= self.items@.take(i as int).push(
                self.items@[i as int],
            ));
            i += 1;
        }
        assert(self.items@.take(self.items@.len() as int) =~= self.items@);
        let mut order: Vec<ItemId> = Vec::new();
        let mut j: usize = 0;
        while j < self.order.len()
            invariant
                j <= self.order.len(),
                order@ == self.order@.take(j as int),
            decreases self.order.len() - j,
        {
            order.push(self.order[j]);
            assert(self.order@.take(j + 1) =~= self.order@.take(j as int).push(
                self.order@[j as int],
            ));
            j += 1;
        }
        assert(self.order@.take(self.order@.len() as int) =~= self.order@);
        QueueSnapshot {
            version: self.version,
            items,
            order,
            current: self.current,
            shuffle: self.shuffle,
            repeat: self.repeat,
        }
    }

    /// The version of what a list shows.
    pub fn version(&self) -> (r: u64)
        ensures
            r == self@.version,
    {
        self.version
    }

    /// How many played entries `Previous` could walk back through.
    pub fn history_len(&self) -> (r: usize)
        ensures
            r == self@.history.len(),
    {
        self.history.len()
    }

    /// The entry `id`, if there is one.
    pub fn item(&self, id: ItemId) -> (r: Option<&QueueItem>)
        ensures
            match r {
                Some(item) => self@.has(id) && *item
                    == self@.items[self@.ids().index_of_first(id)->0] && item.id == id,
                None => !self@.has(id),
            },
    {
        match item_position(&self.items, id) {
            Some(at) => Some(&self.items[at]),
            None => None,
        }
    }

    /// Fills in what is missing of the entry `id`.
    pub fn record_meta(&mut self, id: ItemId, title: Option<&str>, duration: Option<Duration>)
        requires
            old(self)@.wf(),
        ensures
            meta_recorded(
                old(self)@,
                final(self)@,
                id,
                match title {
                    Some(text) => Some(text@),
                    None => None,
                },
                duration,
            ),
            final(self)@.wf(),
    {
        let at: usize = match item_position(&self.items, id) {
            Some(at) => at,
            None => {
                return ;
            },
        };
        let mut item: QueueItem = self.items[at].clone();
        let mut changed = false;
        if item.track.title.is_none() {
            match title {
                Some(text) => {
                    item.track.title = Some(text.to_owned());
                    changed = true;
                },
                None => {},
            }
        }
        if item.track.duration.is_none() && duration.is_some() {
            item.track.duration = duration;
            changed = true;
        }
        self.items.set(at, item);
        if changed {
            self.version = self.version.wrapping_add(1);
        }
        proof {
            let before = old(self)@.items[at as int];
            assert(self@.ids() =~= old(self)@.ids());
            assert(self@.items =~= old(self)@.items.update(at as int, item));
            if !changed {
                assert(item.track == before.track);
                assert(self@.items =~= old(self)@.items);
            }
            assert(self@ =~= old(self)@.recorded(id, item));
            assert forall|i: int| 0 <= i < self@.items.len() implies 0 < (
            #[trigger] self@.items[i]).id.0 < self@.next_id by {
                assert(self@.items[i].id == old(self)@.items[i].id);
            }
        }
    }

    fn new_items(&mut self, tracks: Vec<QueueTrack>) -> (r: Vec<QueueItem>)
        requires
            old(self)@.wf(),
            old(self)@.next_id + tracks@.len() <= u64::MAX,
        ensures
            r@ == old(self)@.new_items(tracks@),
            final(self)@ == (QueueModel {
                next_id: old(self)@.next_id + tracks@.len(),
                ..old(self)@
            }),
    {
        let mut items: Vec<QueueItem> = Vec::new();
        let mut i: usize = 0;
        while i < tracks.len()
            invariant
                i <= tracks.len(),
                items@ == old(self)@.new_items(tracks@).take(i as int),
                old(self)@.next_id + tracks@.len() <= u64::MAX,
                self@ == (QueueModel { next_id: old(self)@.next_id + i as nat, ..old(self)@ }),
            decreases tracks.len() - i,
        {
            assert(self.next_id == self@.next_id);
            items.push(QueueItem { id: ItemId(self.next_id), track: tracks[i].clone() });
            self.next_id = self.next_id + 1;
            assert(self@ =~= QueueModel { next_id: old(self)@.next_id + (i + 1) as nat, ..old(self)@ });
            assert(old(self)@.new_items(tracks@).take(i + 1) =~= old(self)@.new_items(
                tracks@,
            ).take(i as int).push(old(self)@.new_items(tracks@)[i as int]));
            i += 1;
        }
        assert(old(self)@.new_items(tracks@).take(tracks@.len() as int) =~= old(self)@.new_items(
            tracks@,
        ));
        items
    }

    // ---- editing -------------------------------------------------------------------------

    /// Puts entries for `tracks` in, in both the queue and the play order.
    fn put_in(&mut self, items_at: usize, order_at: usize, tracks: Vec<QueueTrack>) -> (r: Vec<
        ItemId,
    >)
        requires
            old(self)@.wf(),
            old(self)@.next_id + tracks@.len() <= u64::MAX,
            items_at <= old(self)@.items.len(),
            order_at <= old(self)@.order.len(),
            !old(self)@.shuffle ==> items_at == order_at,
        ensures
            final(self)@ == old(self)@.put_in(items_at as nat, order_at as nat, tracks@),
            r@ == ids_of(old(self)@.new_items(tracks@)),
            final(self)@.wf(),
    {
        let new = self.new_items(tracks);
        let ids = ids_in(&new);
        let count: usize = ids.len();
        let mut in_order: Vec<ItemId> = Vec::new();
        let mut i: usize = 0;
        while i < ids.len()
            invariant
                i <= ids.len(),
                in_order@ == ids@.take(i as int),
            decreases ids.len() - i,
        {
            in_order.push(ids[i]);
            assert(ids@.take(i + 1) =~= ids@.take(i as int).push(ids@[i as int]));
            i += 1;
        }
        assert(in_order@ =~= ids@);
        let ghost old_order = self.order@;
        splice(&mut self.items, items_at, new);
        splice(&mut self.order, order_at, in_order);
        assert(self.order@.len() == old_order.len() + count);
        let length: usize = self.order.len();
        match self.vacated {
            Some(slot) => {
                if order_at < slot {
                    assert(slot + count <= length);
                    self.vacated = Some(slot + count);
                }
            },
            None => {},
        }
        self.version = self.version.wrapping_add(1);
        proof {
            assert(self@ =~= old(self)@.put_in(items_at as nat, order_at as nat, tracks@));
            laws::lemma_put_in_keeps_wf(old(self)@, items_at as nat, order_at as nat, tracks@);
        }
        ids
    }

    /// Appends to the end of the queue and of the play order.
    pub fn add(&mut self, tracks: Vec<QueueTrack>) -> (r: Vec<ItemId>)
        requires
            old(self)@.wf(),
            old(self)@.next_id + tracks@.len() <= u64::MAX,
        ensures
            final(self)@ == old(self)@.insert(old(self)@.items.len(), tracks@),
            r@ == ids_of(old(self)@.new_items(tracks@)),
            final(self)@.wf(),
    {
        let at: usize = self.items.len();
        self.insert(at, tracks)
    }

    /// Inserts at `at` in queue order (clamped). While shuffled the entries still go to the end
    /// of the play order: they are played once this cycle, and where they land is predictable.
    pub fn insert(&mut self, at: usize, tracks: Vec<QueueTrack>) -> (r: Vec<ItemId>)
        requires
            old(self)@.wf(),
            old(self)@.next_id + tracks@.len() <= u64::MAX,
        ensures
            final(self)@ == old(self)@.insert(at as nat, tracks@),
            r@ == ids_of(old(self)@.new_items(tracks@)),
            final(self)@.wf(),
    {
        let at: usize = if at <= self.items.len() {
            at
        } else {
            self.items.len()
        };
        let order_at: usize = if self.shuffle {
            self.order.len()
        } else {
            at
        };
        assert(self@.order.len() == self@.items.len());
        self.put_in(at, order_at, tracks)
    }

    /// Where in `row` the tracks to be played next go.
    fn next_place(&self, row: &Vec<ItemId>) -> (r: usize)
        ensures
            r == self@.next_place(row@),
            r <= row@.len(),
    {
        let length: usize = row.len();
        match self.current {
            Some(id) => match position_in(row, id) {
                Some(at) => {
                    assert(at < length);
                    return at + 1;
                },
                None => {},
            },
            None => {},
        }
        match self.vacated {
            Some(slot) => if slot <= row.len() {
                slot
            } else {
                row.len()
            },
            None => 0,
        }
    }

    /// Inserts right after the entry that is playing (or first, if nothing is), in both the
    /// queue and the play order.
    pub fn play_next(&mut self, tracks: Vec<QueueTrack>) -> (r: Vec<ItemId>)
        requires
            old(self)@.wf(),
            old(self)@.next_id + tracks@.len() <= u64::MAX,
        ensures
            final(self)@ == old(self)@.play_next(tracks@),
            r@ == ids_of(old(self)@.new_items(tracks@)),
            final(self)@.wf(),
    {
        let ids = ids_in(&self.items);
        let items_at: usize = self.next_place(&ids);
        let order_at: usize = self.next_place(&self.order);
        self.put_in(items_at, order_at, tracks)
    }

    fn remove_one(&mut self, id: ItemId) -> (r: bool)
        requires
            old(self)@.wf(),
        ensures
            r == old(self)@.has(id),
            final(self)@ == old(self)@.remove_one(id),
            final(self)@.wf(),
    {
        let at: usize = match item_position(&self.items, id) {
            Some(at) => at,
            None => {
                return false;
            },
        };
        assert(self@.order.contains(id));
        let slot: usize = match position_in(&self.order, id) {
            Some(slot) => slot,
            None => {
                return false;
            },
        };
        let _removed = self.items.remove(at);
        let _left = self.order.remove(slot);
        if self.current == Some(id) {
            self.current = None;
            self.vacated = Some(slot);
        } else {
            match self.vacated {
                Some(vacated) => {
                    if slot < vacated {
                        self.vacated = Some(vacated - 1);
                    }
                },
                None => {},
            }
        }
        if self.pending == Some(id) {
            self.pending = None;
        }
        let mut history: Vec<ItemId> = Vec::new();
        let mut i: usize = 0;
        while i < self.history.len()
            invariant
                i <= self.history.len(),
                history@ == without(self.history@.take(i as int), id),
            decreases self.history.len() - i,
        {
            proof {
                assert(self.history@.take(i + 1).drop_last() =~= self.history@.take(i as int));
                assert(self.history@.take(i + 1).last() == self.history@[i as int]);
            }
            if self.history[i] != id {
                history.push(self.history[i]);
            }
            i += 1;
        }
        assert(self.history@.take(self.history@.len() as int) =~= self.history@);
        self.history = history;
        proof {
            assert(self@ =~= old(self)@.remove_one(id));
            laws::lemma_remove_one_keeps_wf(old(self)@, id);
        }
        true
    }

    /// Removes entries, returning how many existed. Removing the current entry leaves playback
    /// to the caller (the queue only answers what comes next).
    pub fn remove(&mut self, ids: &[ItemId]) -> (r: usize)
        requires
            old(self)@.wf(),
        ensures
            r == old(self)@.removals(ids@),
            final(self)@ == old(self)@.remove(ids@),
            final(self)@.wf(),
    {
        let mut removed: usize = 0;
        let mut i: usize = 0;
        while i < ids.len()
            invariant
                i <= ids.len(),
                removed <= i,
                self@.wf(),
                removed == old(self)@.removals(ids@.take(i as int)),
                self@ == old(self)@.remove_each(ids@.take(i as int)),
            decreases ids.len() - i,
        {
            proof {
                assert(ids@.take(i + 1).drop_last() =~= ids@.take(i as int));
                assert(ids@.take(i + 1).last() == ids@[i as int]);
            }
            if self.remove_one(ids[i]) {
                removed += 1;
            }
            i += 1;
        }
        assert(ids@.take(ids@.len() as int) =~= ids@);
        if removed > 0 {
            self.version = self.version.wrapping_add(1);
        }
        removed
    }

    /// Moves an entry to position `to` in queue order (clamped). The cursor stays on the entry
    /// it was on, since it is an id. While shuffled the play order is left alone.
    pub fn move_to(&mut self, id: ItemId, to: usize) -> (r: bool)
        requires
            old(self)@.wf(),
        ensures
            r == old(self)@.has(id),
            final(self)@ == old(self)@.move_to(id, to as nat),
            final(self)@.wf(),
    {
        let from: usize = match item_position(&self.items, id) {
            Some(from) => from,
            None => {
                return false;
            },
        };
        let item = self.items.remove(from);
        let to: usize = if to <= self.items.len() {
            to
        } else {
            self.items.len()
        };
        self.items.insert(to, item);
        if !self.shuffle {
            self.order = ids_in(&self.items);
        }
        self.version = self.version.wrapping_add(1);
        proof {
            assert(self@ =~= old(self)@.move_to(id, to as nat));
            laws::lemma_move_to_keeps_wf(old(self)@, id, to as nat);
        }
        true
    }

    /// Empties the queue.
    pub fn clear(&mut self)
        requires
            old(self)@.wf(),
        ensures
            final(self)@ == old(self)@.clear(),
            final(self)@.wf(),
    {
        self.items = Vec::new();
        self.order = Vec::new();
        self.current = None;
        self.pending = None;
        self.pending_backward = false;
        self.history = Vec::new();
        self.vacated = None;
        self.version = self.version.wrapping_add(1);
        assert(self@ =~= old(self)@.clear());
        assert(self@.ids() =~= Seq::<ItemId>::empty());
    }

    /// Sets the repeat mode.
    pub fn set_repeat(&mut self, repeat: Repeat)
        requires
            old(self)@.wf(),
        ensures
            final(self)@ == old(self)@.set_repeat(repeat),
            final(self)@.wf(),
    {
        if self.repeat != repeat {
            self.repeat = repeat;
            self.version = self.version.wrapping_add(1);
            assert(self@ =~= old(self)@.set_repeat(repeat));
            assert(self@.ids() == old(self)@.ids());
        }
    }

    /// Turning shuffle on keeps the current entry current, at the head of a shuffled order of
    /// the rest; turning it off returns to queue order without moving the cursor.
    pub fn set_shuffle(&mut self, shuffle: bool)
        requires
            old(self)@.wf(),
        ensures
            final(self)@ == old(self)@.set_shuffle(shuffle),
            !old(self)@.shuffle && shuffle ==> {
                &&& reordered(final(self)@.order, old(self)@.ids())
                &&& old(self)@.current matches Some(id) ==> final(self)@.order[0] == id
            },
            final(self)@.wf(),
    {
        if self.shuffle == shuffle {
            return ;
        }
        self.shuffle = shuffle;
        self.vacated = None;
        self.version = self.version.wrapping_add(1);
        if !shuffle {
            self.order = ids_in(&self.items);
            proof {
                assert(self@ =~= old(self)@.unshuffled());
                assert(self@.ids() == old(self)@.ids());
            }
            return ;
        }
        let ids = ids_in(&self.items);
        let mut order: Vec<ItemId> = Vec::new();
        match self.current {
            Some(id) => {
                let at: usize = match position_in(&ids, id) {
                    Some(at) => at,
                    None => 0,
                };
                let mut others: Vec<ItemId> = ids;
                let ghost all = others@;
                let _first = others.remove(at);
                shuffle_ids(&mut others, &mut self.rng);
                let ghost rest = others@;
                order.push(id);
                order.append(&mut others);
                proof {
                    assert(order@ =~= seq![id] + rest);
                    laws::lemma_moved_to_the_front(all, at as int, rest, order@);
                }
            },
            None => {
                order = ids;
                shuffle_ids(&mut order, &mut self.rng);
            },
        }
        self.order = order;
        proof {
            assert(self@ =~= old(self)@.set_shuffle(true));
            laws::lemma_reordered_keeps_wf(old(self)@, self@, old(self)@.ids());
        }
    }

    // ---- sequencing ----------------------------------------------------------------------

    /// The entry that the next offer is measured from: whatever was last offered, or else what is
    /// playing.
    fn base_id(&self) -> (r: Option<ItemId>)
        ensures
            r == self@.base_id(),
    {
        match self.pending {
            Some(id) => Some(id),
            None => self.current,
        }
    }

    fn forward(&self, wrap: bool) -> (r: Peeked)
        requires
            self@.wf(),
        ensures
            r == peeked(self@.forward(wrap)),
    {
        let length: usize = self.order.len();
        let next: usize = match self.base_id() {
            Some(id) => match position_in(&self.order, id) {
                Some(at) => {
                    assert(at < length);
                    at + 1
                },
                None => {
                    assert(self@.order.contains(id));
                    0
                },
            },
            None => match self.vacated {
                Some(slot) => slot,
                None => 0,
            },
        };
        assert(next == self@.next_slot());
        if next < self.order.len() {
            Peeked::Next(self.order[next])
        } else if wrap && self.order.len() > 0 {
            if self.shuffle {
                Peeked::Unknown
            } else {
                Peeked::Next(self.order[0])
            }
        } else {
            Peeked::End
        }
    }

    fn backward(&self, wrap: bool) -> (r: Option<ItemId>)
        requires
            self@.wf(),
        ensures
            r == self@.backward(wrap),
    {
        // What was actually played beats what the order says.
        if self.history.len() > 0 {
            return Some(self.history[self.history.len() - 1]);
        }
        match self.base_id() {
            Some(id) => {
                assert(self@.order.contains(id));
                match position_in(&self.order, id) {
                    Some(at) => if at > 0 {
                        Some(self.order[at - 1])
                    } else if wrap {
                        Some(self.order[self.order.len() - 1])
                    } else {
                        None
                    },
                    None => None,
                }
            },
            None => match self.vacated {
                Some(slot) => if slot > 0 {
                    Some(self.order[slot - 1])
                } else {
                    None
                },
                None => if self.order.len() > 0 {
                    Some(self.order[0])
                } else {
                    None
                },
            },
        }
    }

    /// What [`Inner::advance`] would answer, without offering it: [`Peeked::Unknown`] where it
    /// would have to shuffle first.
    pub fn peek(&self, how: Advance) -> (r: Peeked)
        requires
            self@.wf(),
        ensures
            r == peeked(self@.offer(how)),
    {
        match how {
            Advance::Restart => answered(self.base_id()),
            Advance::Auto => match self.repeat {
                Repeat::One => match self.base_id() {
                    Some(id) => Peeked::Next(id),
                    None => if self.order.len() > 0 {
                        Peeked::Next(self.order[0])
                    } else {
                        Peeked::End
                    },
                },
                Repeat::Off => self.forward(false),
                Repeat::All => self.forward(true),
            },
            Advance::Next => self.forward(self.repeat != Repeat::Off),
            Advance::Previous => answered(self.backward(self.repeat == Repeat::All)),
        }
    }

    /// What the engine should play for `how`. Records the answer as offered, and nothing else
    /// about the cursor: it moves when the engine opens the entry (see [`Inner::commit`]). A
    /// shuffled queue that starts over is shuffled anew, taking care not to open the new cycle
    /// with the entry that closed the last one.
    pub fn advance(&mut self, how: Advance) -> (r: Option<ItemId>)
        requires
            old(self)@.wf(),
        ensures
            match old(self)@.offer(how) {
                Offer::Answer(answer) => r == answer && final(self)@ == old(self)@.offered(
                    how,
                    answer,
                ),
                Offer::NewCycle => {
                    let (order, rng) = old(self)@.next_cycle();
                    &&& r == Some(order[0])
                    &&& final(self)@ == old(self)@.cycled(how, order, rng)
                    &&& old(self)@.new_cycle(order)
                },
            },
            final(self)@.wf(),
    {
        let back = match how {
            Advance::Previous => true,
            _ => false,
        };
        let target = match self.peek(how) {
            Peeked::Next(id) => Some(id),
            Peeked::End => None,
            Peeked::Unknown => Some(self.wrap_around()),
        };
        let ghost turned = self@;
        self.pending = target;
        self.pending_backward = back && target.is_some();
        proof {
            match old(self)@.offer(how) {
                Offer::Answer(answer) => {
                    assert(self@ =~= old(self)@.offered(how, answer));
                    laws::what_is_offered_exists(old(self)@, how);
                    assert(self@.ids() == old(self)@.ids());
                },
                Offer::NewCycle => {
                    assert(self@ =~= old(self)@.cycled(how, turned.order, turned.rng));
                    assert(turned.has(turned.order[0])) by {
                        assert(turned.order.contains(turned.order[0]));
                    }
                    assert(self@.ids() == turned.ids());
                },
            }
        }
        target
    }

    /// Starts a new cycle of a shuffled play order and returns its first entry.
    fn wrap_around(&mut self) -> (r: ItemId)
        requires
            old(self)@.wf(),
            old(self)@.shuffle,
            old(self)@.order.len() > 0,
        ensures
            (final(self)@.order, final(self)@.rng) == old(self)@.next_cycle(),
            old(self)@.new_cycle(final(self)@.order),
            final(self)@ == (QueueModel {
                order: final(self)@.order,
                rng: final(self)@.rng,
                ..old(self)@
            }).changed(),
            final(self)@.order.len() > 0,
            r == final(self)@.order[0],
            final(self)@.wf(),
    {
        let last = self.base_id();
        shuffle_ids(&mut self.order, &mut self.rng);
        proof {
            laws::lemma_reordered(self.order@, old(self)@.order);
        }
        if self.order.len() >= 2 && Some(self.order[0]) == last {
            let first = self.order[0];
            let second = self.order[1];
            let ghost before = self.order@;
            self.order.set(0, second);
            self.order.set(1, first);
            proof {
                laws::lemma_swapped(before, self.order@);
                assert(before[0] != before[1]);
            }
        }
        self.version = self.version.wrapping_add(1);
        proof {
            assert(self@ =~= (QueueModel {
                order: self.order@,
                rng: self.rng,
                ..old(self)@
            }).changed());
            laws::lemma_reordered(self.order@, old(self)@.order);
            laws::lemma_reordered_keeps_wf(old(self)@, self@, old(self)@.order);
        }
        self.order[0]
    }

    /// The engine opened `id`: it is now the current entry. Returns whether the entry exists.
    /// Opening the current entry again (a restart, a repeat, a seek that reopens the stream)
    /// changes nothing.
    pub fn commit(&mut self, id: ItemId) -> (r: bool)
        requires
            old(self)@.wf(),
        ensures
            r == old(self)@.has(id),
            final(self)@ == old(self)@.commit(id),
            final(self)@.wf(),
    {
        if self.item(id).is_none() {
            return false;
        }
        let stepping_back = self.pending == Some(id) && self.pending_backward;
        self.pending = None;
        self.pending_backward = false;
        self.vacated = None;
        proof {
            laws::lemma_commit_keeps_wf(old(self)@, id);
        }
        if self.current == Some(id) {
            assert(self@ =~= old(self)@.commit(id));
            return true;
        }
        if self.history.len() > 0 && self.history[self.history.len() - 1] == id {
            // Going back through history: what was current is not before what is returned to.
            let _left = self.history.pop();
        } else if stepping_back {
            // Going back through the order: likewise, or `Previous` would bounce between two
            // entries once the history runs out.
        } else {
            match self.current {
                Some(previous) => {
                    self.history.push(previous);
                    if self.history.len() > HISTORY_LIMIT {
                        let _oldest = self.history.remove(0);
                    }
                },
                None => {},
            }
        }
        self.current = Some(id);
        self.version = self.version.wrapping_add(1);
        assert(self@ =~= old(self)@.commit(id));
        true
    }
}

/// An offer as [`Inner::peek`] gives it.
pub open spec fn peeked(offer: Offer) -> Peeked {
    match offer {
        Offer::Answer(Some(id)) => Peeked::Next(id),
        Offer::Answer(None) => Peeked::End,
        Offer::NewCycle => Peeked::Unknown,
    }
}

fn answered(answer: Option<ItemId>) -> (r: Peeked)
    ensures
        r == peeked(Offer::Answer(answer)),
{
    match answer {
        Some(id) => Peeked::Next(id),
        None => Peeked::End,
    }
}

} // verus!
