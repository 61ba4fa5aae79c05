//! Where entries are after the queue was edited, and which one comes next.

use super::laws;
use super::model::{filled_in, Offer, QueueModel};
use super::{ItemId, QueueItem, QueueSnapshot, QueueTrack, Repeat};
use crate::control::Controller;
use crate::engine::supplier::Advance;
use crate::engine::types::State;
use crate::time::Duration;
use vstd::prelude::*;

verus! {

/// The smaller of two numbers.
pub open spec fn least(a: int, b: int) -> int {
    if a < b {
        a
    } else {
        b
    }
}

/// Whether `after` is the row `before` with entries for `tracks` in it from place `at` on: each has
/// an id that follows the one before it, from `first` on, and everything else is in the order it was.
pub open spec fn has_new(
    before: Seq<QueueItem>,
    after: Seq<QueueItem>,
    at: int,
    tracks: Seq<QueueTrack>,
    first: int,
) -> bool {
    &&& 0 <= at <= before.len()
    &&& after.len() == before.len() + tracks.len()
    &&& forall|i: int| 0 <= i < at ==> #[trigger] after[i] == before[i]
    &&& forall|i: int|
        0 <= i < tracks.len() ==> (#[trigger] after[at + i]).track == tracks[i] && after[at
            + i].id.0 == first + i
    &&& forall|i: int|
        at <= i < before.len() ==> #[trigger] before[i] == after[tracks.len() + i]
}

/// So with a row of ids.
pub open spec fn has_new_ids(
    before: Seq<ItemId>,
    after: Seq<ItemId>,
    at: int,
    count: int,
    first: int,
) -> bool {
    &&& 0 <= at <= before.len()
    &&& after.len() == before.len() + count
    &&& forall|i: int| 0 <= i < at ==> #[trigger] after[i] == before[i]
    &&& forall|i: int| 0 <= i < count ==> (#[trigger] after[at + i]).0 == first + i
    &&& forall|i: int| at <= i < before.len() ==> #[trigger] before[i] == after[count + i]
}

proof fn lemma_put_in(queue: QueueModel, items_at: nat, order_at: nat, tracks: Seq<QueueTrack>)
    requires
        items_at <= queue.items.len(),
        order_at <= queue.order.len(),
        queue.next_id + tracks.len() <= u64::MAX,
    ensures
        has_new(
            queue.items,
            queue.put_in(items_at, order_at, tracks).items,
            items_at as int,
            tracks,
            queue.next_id as int,
        ),
        has_new_ids(
            queue.order,
            queue.put_in(items_at, order_at, tracks).order,
            order_at as int,
            tracks.len() as int,
            queue.next_id as int,
        ),
{
}

/// Tracks that are inserted stand at the place that was asked for, or at the end if the queue is
/// shorter; in the play order at the same place, or at its end while it is shuffled. What is playing,
/// what was offered and what was played before stay.
pub proof fn inserted_tracks_are_where_they_were_asked_to_be(
    queue: QueueModel,
    at: nat,
    tracks: Seq<QueueTrack>,
)
    requires
        queue.wf(),
        queue.next_id + tracks.len() <= u64::MAX,
    ensures
        ({
            let after = queue.insert(at, tracks);
            let place = least(at as int, queue.items.len() as int);
            &&& has_new(queue.items, after.items, place, tracks, queue.next_id as int)
            &&& has_new_ids(
                queue.order,
                after.order,
                if queue.shuffle {
                    queue.order.len() as int
                } else {
                    place
                },
                tracks.len() as int,
                queue.next_id as int,
            )
            &&& after.next_id == queue.next_id + tracks.len()
            &&& after.current == queue.current
            &&& after.pending == queue.pending
            &&& after.history == queue.history
            &&& after.repeat == queue.repeat
            &&& after.shuffle == queue.shuffle
        }),
{
    let place = least(at as int, queue.items.len() as int);
    lemma_put_in(
        queue,
        place as nat,
        if queue.shuffle {
            queue.order.len()
        } else {
            place as nat
        },
        tracks,
    );
}

/// Tracks that are to be played next stand right behind the current entry, in the queue and in the
/// play order; at the place that a removed current entry left, if there is none; and first if nothing
/// was played yet.
pub proof fn tracks_to_play_next_follow_the_current_one(
    queue: QueueModel,
    tracks: Seq<QueueTrack>,
    at: int,
    in_order: int,
)
    requires
        queue.wf(),
        queue.next_id + tracks.len() <= u64::MAX,
        queue.current matches Some(id) ==> {
            &&& 0 <= at < queue.items.len()
            &&& queue.items[at].id == id
            &&& 0 <= in_order < queue.order.len()
            &&& queue.order[in_order] == id
        },
    ensures
        ({
            let after = queue.play_next(tracks);
            let first = queue.next_id as int;
            let count = tracks.len() as int;
            &&& queue.current is Some ==> {
                &&& has_new(queue.items, after.items, at + 1, tracks, first)
                &&& has_new_ids(queue.order, after.order, in_order + 1, count, first)
            }
            &&& queue.current is None && queue.vacated is None ==> {
                &&& has_new(queue.items, after.items, 0, tracks, first)
                &&& has_new_ids(queue.order, after.order, 0, count, first)
            }
            &&& queue.current is None && queue.vacated is Some ==> {
                let slot = queue.vacated->0 as int;
                &&& has_new(queue.items, after.items, slot, tracks, first)
                &&& has_new_ids(queue.order, after.order, slot, count, first)
            }
            &&& after.current == queue.current
            &&& after.next_id == queue.next_id + tracks.len()
        }),
{
    if queue.current is Some {
        let id = queue.current->0;
        assert(queue.ids()[at] == id);
        queue.ids().index_of_first_ensures(id);
        queue.order.index_of_first_ensures(id);
    }
    lemma_put_in(queue, queue.next_place(queue.ids()), queue.next_place(queue.order), tracks);
}

/// An entry that is moved stands at the place that was asked for, or last if there are fewer, and the
/// others are in the order they were in. The play order follows, unless it is shuffled; what is playing
/// stays what is playing.
pub proof fn a_moved_entry_is_where_it_was_asked_to_be(queue: QueueModel, from: int, to: nat)
    requires
        queue.wf(),
        0 <= from < queue.items.len(),
    ensures
        ({
            let after = queue.move_to(queue.items[from].id, to);
            let place = least(to as int, queue.items.len() - 1);
            &&& after.items.len() == queue.items.len()
            &&& after.items[place] == queue.items[from]
            &&& after.items.remove(place) == queue.items.remove(from)
            &&& queue.shuffle ==> after.order == queue.order
            &&& !queue.shuffle ==> after.order.len() == after.items.len() && forall|i: int|
                0 <= i < after.items.len() ==> #[trigger] after.order[i] == after.items[i].id
            &&& after.current == queue.current
            &&& after.next_id == queue.next_id
            &&& after.history == queue.history
        }),
{
    let id = queue.items[from].id;
    assert(queue.ids()[from] == id);
    queue.ids().index_of_first_ensures(id);
    let after = queue.move_to(id, to);
    let place = least(to as int, queue.items.len() - 1);
    assert(after.items.remove(place) =~= queue.items.remove(from));
}

/// Moving what does not exist, or clearing, or another mode: what changes and what stays.
pub proof fn the_other_edits_do_what_they_say(
    queue: QueueModel,
    gone: ItemId,
    to: nat,
    repeat: Repeat,
)
    requires
        queue.wf(),
        forall|i: int| 0 <= i < queue.items.len() ==> (#[trigger] queue.items[i]).id != gone,
    ensures
        queue.move_to(gone, to) == queue,
        ({
            let cleared = queue.clear();
            &&& cleared.items.len() == 0
            &&& cleared.order.len() == 0
            &&& cleared.current is None
            &&& cleared.pending is None
            &&& cleared.history.len() == 0
            &&& cleared.vacated is None
            &&& cleared.next_id == queue.next_id
            &&& cleared.repeat == queue.repeat
            &&& cleared.shuffle == queue.shuffle
        }),
        queue.set_repeat(repeat).repeat == repeat,
        queue.set_repeat(repeat) == (QueueModel {
            repeat,
            version: queue.set_repeat(repeat).version,
            ..queue
        }),
        ({
            let plain = queue.set_shuffle(false);
            &&& !plain.shuffle
            &&& plain.items == queue.items
            &&& plain.current == queue.current
            &&& plain.order.len() == plain.items.len()
            &&& forall|i: int|
                0 <= i < plain.items.len() ==> #[trigger] plain.order[i] == plain.items[i].id
        }),
        ({
            let shuffled = queue.set_shuffle(true);
            &&& shuffled.shuffle
            &&& shuffled.items == queue.items
            &&& shuffled.current == queue.current
            &&& shuffled.repeat == queue.repeat
            &&& queue.shuffle ==> shuffled == queue
            &&& !queue.shuffle && queue.current is Some ==> shuffled.order[0] == queue.current->0
        }),
{
    if queue.has(gone) {
        let i = choose|i: int| 0 <= i < queue.ids().len() && queue.ids()[i] == gone;
        assert(queue.items[i].id == gone);
    }
    assert(queue.set_repeat(repeat) =~= QueueModel {
        repeat,
        version: queue.set_repeat(repeat).version,
        ..queue
    });
}

// ---- removing ----------------------------------------------------------------------------------

proof fn lemma_filter_all<A>(row: Seq<A>, keep: spec_fn(A) -> bool)
    requires
        forall|i: int| 0 <= i < row.len() ==> keep(#[trigger] row[i]),
    ensures
        row.filter(keep) == row,
    decreases row.len(),
{
    reveal(Seq::filter);
    if row.len() > 0 {
        lemma_filter_all(row.drop_last(), keep);
        assert(row =~= row.drop_last().push(row.last()));
    }
}

proof fn lemma_filter_but_one<A>(row: Seq<A>, at: int, keep: spec_fn(A) -> bool)
    requires
        0 <= at < row.len(),
        !keep(row[at]),
        forall|i: int| 0 <= i < row.len() && i != at ==> keep(#[trigger] row[i]),
    ensures
        row.filter(keep) == row.remove(at),
    decreases row.len(),
{
    reveal(Seq::filter);
    let shorter = row.drop_last();
    if at == row.len() - 1 {
        lemma_filter_all(shorter, keep);
        assert(row.remove(at) =~= shorter);
    } else {
        lemma_filter_but_one(shorter, at, keep);
        assert(row.remove(at) =~= shorter.remove(at).push(row.last()));
    }
}

proof fn lemma_filter_twice<A>(
    row: Seq<A>,
    first: spec_fn(A) -> bool,
    second: spec_fn(A) -> bool,
    both: spec_fn(A) -> bool,
)
    requires
        forall|x: A| #[trigger] both(x) == (first(x) && second(x)),
    ensures
        row.filter(first).filter(second) == row.filter(both),
    decreases row.len(),
{
    reveal(Seq::filter);
    if row.len() > 0 {
        lemma_filter_twice(row.drop_last(), first, second, both);
        let rest = row.drop_last().filter(first);
        if first(row.last()) {
            assert(rest.push(row.last()).drop_last() =~= rest);
        }
    }
}

proof fn lemma_remove_one_filters(queue: QueueModel, id: ItemId)
    requires
        queue.wf(),
    ensures
        queue.remove_one(id).items == queue.items.filter(|item: QueueItem| item.id != id),
        queue.remove_one(id).order == queue.order.filter(|other: ItemId| other != id),
{
    let keep = |item: QueueItem| item.id != id;
    let stays = |other: ItemId| other != id;
    if queue.has(id) {
        queue.ids().index_of_first_ensures(id);
        let at = queue.ids().index_of_first(id)->0;
        assert forall|i: int| 0 <= i < queue.items.len() && i != at implies keep(
            #[trigger] queue.items[i],
        ) by {
            assert(queue.ids()[i] == queue.items[i].id);
            assert(queue.ids()[i] != queue.ids()[at]);
        }
        assert(queue.ids()[at] == queue.items[at].id);
        lemma_filter_but_one(queue.items, at, keep);
        assert(queue.order.contains(id));
        queue.order.index_of_first_ensures(id);
        let slot = queue.order.index_of_first(id)->0;
        assert forall|i: int| 0 <= i < queue.order.len() && i != slot implies stays(
            #[trigger] queue.order[i],
        ) by {
            assert(queue.order[i] != queue.order[slot]);
        }
        lemma_filter_but_one(queue.order, slot, stays);
    } else {
        assert forall|i: int| 0 <= i < queue.items.len() implies keep(#[trigger] queue.items[i]) by {
            assert(queue.ids()[i] == queue.items[i].id);
            assert(queue.ids().contains(queue.ids()[i]));
        }
        lemma_filter_all(queue.items, keep);
        assert forall|i: int| 0 <= i < queue.order.len() implies stays(
            #[trigger] queue.order[i],
        ) by {
            assert(queue.order.contains(queue.order[i]));
        }
        lemma_filter_all(queue.order, stays);
    }
}

proof fn lemma_remove_each_filters(queue: QueueModel, ids: Seq<ItemId>)
    requires
        queue.wf(),
    ensures
        queue.remove_each(ids).wf(),
        queue.remove_each(ids).items == queue.items.filter(
            |item: QueueItem| !ids.contains(item.id),
        ),
        queue.remove_each(ids).order == queue.order.filter(|id: ItemId| !ids.contains(id)),
        queue.remove_each(ids).current == match queue.current {
            Some(id) if ids.contains(id) => None,
            other => other,
        },
        queue.remove_each(ids).next_id == queue.next_id,
        queue.remove_each(ids).repeat == queue.repeat,
        queue.remove_each(ids).shuffle == queue.shuffle,
        queue.removals(ids) + queue.remove_each(ids).items.len() == queue.items.len(),
    decreases ids.len(),
{
    let keep = |item: QueueItem| !ids.contains(item.id);
    let stays = |id: ItemId| !ids.contains(id);
    if ids.len() == 0 {
        lemma_filter_all(queue.items, keep);
        lemma_filter_all(queue.order, stays);
    } else {
        let earlier = ids.drop_last();
        let id = ids.last();
        lemma_remove_each_filters(queue, earlier);
        let before = queue.remove_each(earlier);
        lemma_remove_one_filters(before, id);
        laws::every_edit_keeps_the_invariant(before, laws::Edit::Remove(seq![id]));
        assert(seq![id].drop_last() =~= Seq::<ItemId>::empty());
        assert(before.remove_each(seq![id]) == before.remove_one(id)) by {
            reveal_with_fuel(QueueModel::remove_each, 2);
        }
        assert(before.remove_one(id).ids() == before.remove(seq![id]).ids());
        assert forall|other: ItemId| #[trigger] ids.contains(other) == (earlier.contains(other)
            || other == id) by {
            if ids.contains(other) {
                let i = choose|i: int| 0 <= i < ids.len() && ids[i] == other;
                if i < ids.len() - 1 {
                    assert(earlier[i] == other);
                }
            }
            if earlier.contains(other) {
                let i = choose|i: int| 0 <= i < earlier.len() && earlier[i] == other;
                assert(ids[i] == other);
            }
            assert(ids[ids.len() - 1] == id);
        }
        lemma_filter_twice(
            queue.items,
            |item: QueueItem| !earlier.contains(item.id),
            |item: QueueItem| item.id != id,
            keep,
        );
        lemma_filter_twice(
            queue.order,
            |other: ItemId| !earlier.contains(other),
            |other: ItemId| other != id,
            stays,
        );
        if before.has(id) {
            before.ids().index_of_first_ensures(id);
        }
    }
}

/// Removing entries leaves exactly the others, in the queue and in the play order, each where it was
/// among them; the current one is forgotten if it was one of them. As many are counted as are gone.
pub proof fn removing_leaves_the_others_as_they_were(queue: QueueModel, ids: Seq<ItemId>)
    requires
        queue.wf(),
    ensures
        ({
            let after = queue.remove(ids);
            &&& after.items == queue.items.filter(|item: QueueItem| !ids.contains(item.id))
            &&& after.order == queue.order.filter(|id: ItemId| !ids.contains(id))
            &&& after.current == match queue.current {
                Some(id) if ids.contains(id) => None,
                other => other,
            }
            &&& after.next_id == queue.next_id
            &&& after.repeat == queue.repeat
            &&& after.shuffle == queue.shuffle
            &&& queue.removals(ids) + after.items.len() == queue.items.len()
        }),
{
    lemma_remove_each_filters(queue, ids);
}

/// Removing the playing entry, and only that, tells the engine to skip.
pub proof fn a_stopped_engine_plays_nothing(queue: QueueModel, state: State)
    ensures
        state is Stopped ==> Controller::playing(queue, state) is None,
        !(state is Stopped) ==> Controller::playing(queue, state) == queue.current,
{
}

// ---- what comes next ---------------------------------------------------------------------------

proof fn lemma_place(row: Seq<ItemId>, at: int)
    requires
        row.no_duplicates(),
        0 <= at < row.len(),
    ensures
        row.contains(row[at]),
        row.index_of_first(row[at]) == Some(at),
{
    row.index_of_first_ensures(row[at]);
}

/// What follows the entry at a place of the play order, if that was last offered, or is playing and
/// nothing was offered since: the one behind it; behind the last one, the first if the queue repeats
/// everything (in a new order, if it is shuffled), or nothing. An entry that repeats follows itself,
/// but a skip leaves it, and leads back to the start at the end. Starting over is the entry itself.
pub proof fn what_follows_an_entry(queue: QueueModel, at: int)
    requires
        queue.wf(),
        0 <= at < queue.order.len(),
        queue.pending == Some(queue.order[at]) || (queue.pending is None && queue.current == Some(
            queue.order[at],
        )),
    ensures
        ({
            let last = at == queue.order.len() - 1;
            let behind = Offer::Answer(Some(queue.order[at + 1]));
            let over = if queue.shuffle {
                Offer::NewCycle
            } else {
                Offer::Answer(Some(queue.order[0]))
            };
            &&& queue.offer(Advance::Restart) == Offer::Answer(Some(queue.order[at]))
            &&& queue.repeat is One ==> queue.offer(Advance::Auto) == Offer::Answer(
                Some(queue.order[at]),
            )
            &&& !(queue.repeat is One) && !last ==> queue.offer(Advance::Auto) == behind
            &&& !last ==> queue.offer(Advance::Next) == behind
            &&& last && queue.repeat is Off ==> queue.offer(Advance::Auto) == Offer::Answer(None)
            &&& last && queue.repeat is Off ==> queue.offer(Advance::Next) == Offer::Answer(None)
            &&& last && queue.repeat is All ==> queue.offer(Advance::Auto) == over
            &&& last && !(queue.repeat is Off) ==> queue.offer(Advance::Next) == over
        }),
{
    lemma_place(queue.order, at);
}

/// What comes first in a queue of which nothing was played yet: the first of the play order, whichever
/// way it is asked for, except to start over.
pub proof fn what_comes_first(queue: QueueModel)
    requires
        queue.wf(),
        queue.pending is None,
        queue.current is None,
        queue.vacated is None,
        queue.history.len() == 0,
        queue.order.len() > 0,
    ensures
        ({
            let first = Offer::Answer(Some(queue.order[0]));
            &&& queue.offer(Advance::Auto) == first
            &&& queue.offer(Advance::Next) == first
            &&& queue.offer(Advance::Previous) == first
            &&& queue.offer(Advance::Restart) == Offer::Answer(None)
        }),
{
}

/// What comes before: the entry that was played last, if any; else the one before in the play order;
/// and before the first one, the last if the queue repeats everything, or nothing.
pub proof fn what_precedes_an_entry(queue: QueueModel, at: int)
    requires
        queue.wf(),
        0 <= at < queue.order.len(),
        queue.pending == Some(queue.order[at]) || (queue.pending is None && queue.current == Some(
            queue.order[at],
        )),
    ensures
        ({
            let before = queue.offer(Advance::Previous);
            let played = queue.history.len() as int;
            &&& played > 0 ==> before == Offer::Answer(Some(queue.history[played - 1]))
            &&& played == 0 && at > 0 ==> before == Offer::Answer(Some(queue.order[at - 1]))
            &&& played == 0 && at == 0 && queue.repeat is All ==> before == Offer::Answer(
                Some(queue.order[queue.order.len() - 1]),
            )
            &&& played == 0 && at == 0 && !(queue.repeat is All) ==> before == Offer::Answer(None)
        }),
{
    lemma_place(queue.order, at);
}

/// An offer is remembered, with whether it was one to go back; nothing else changes.
pub proof fn an_offer_is_remembered(queue: QueueModel, how: Advance, id: ItemId)
    ensures
        ({
            let offered = queue.offered(how, Some(id));
            let nothing = queue.offered(how, None);
            &&& offered.pending == Some(id)
            &&& offered.pending_backward == (how is Previous)
            &&& offered == (QueueModel {
                pending: offered.pending,
                pending_backward: offered.pending_backward,
                ..queue
            })
            &&& nothing == (QueueModel { pending: None, pending_backward: false, ..queue })
        }),
{
}

/// Opening another entry than the current one makes it the current one, and remembers the one that
/// was, at the end of the last two hundred played, unless it is a step back; a step back to what was
/// played last takes it from there.
pub proof fn opening_an_entry_moves_the_cursor(queue: QueueModel, at: int)
    requires
        queue.wf(),
        0 <= at < queue.items.len(),
        queue.current != Some(queue.items[at].id),
    ensures
        ({
            let id = queue.items[at].id;
            let after = queue.commit(id);
            let played = queue.history.len() as int;
            let goes_back = played > 0 && queue.history[played - 1] == id;
            let back = queue.pending == Some(id) && queue.pending_backward;
            &&& after.current == Some(id)
            &&& after.pending is None
            &&& !after.pending_backward
            &&& after.vacated is None
            &&& after.items == queue.items
            &&& after.order == queue.order
            &&& goes_back ==> after.history.push(id) == queue.history
            &&& !goes_back && (back || queue.current is None) ==> after.history == queue.history
            &&& !goes_back && !back && queue.current is Some ==> {
                &&& after.history.last() == queue.current->0
                &&& after.history.len() <= 200
                &&& played < 200 ==> after.history.drop_last() == queue.history
                &&& played == 200 ==> after.history.drop_last() == queue.history.skip(1)
            }
        }),
{
    let id = queue.items[at].id;
    assert(queue.ids()[at] == id);
    assert(queue.has(id));
    let after = queue.commit(id);
    let played = queue.history.len() as int;
    if played > 0 && queue.history[played - 1] == id {
        assert(after.history.push(id) =~= queue.history);
    } else if !(queue.pending == Some(id) && queue.pending_backward) && queue.current is Some {
        if played < 200 {
            assert(after.history.drop_last() =~= queue.history);
        } else {
            assert(after.history.drop_last() =~= queue.history.skip(1));
        }
    }
}

/// What opening an entry reveals fills in what was not known of it and changes nothing that was.
pub proof fn what_is_known_of_an_entry_is_kept(
    known: QueueItem,
    filled: QueueItem,
    title: Option<Seq<char>>,
    duration: Option<Duration>,
)
    requires
        filled_in(known, filled, title, duration),
    ensures
        filled.id == known.id,
        filled.track.source == known.track.source,
        known.track.title is Some ==> filled.track.title == known.track.title,
        known.track.title is None && title is None ==> filled.track.title is None,
        known.track.title is None && title is Some ==> filled.track.title is Some
            && filled.track.title->0@ == title->0,
        known.track.duration is Some ==> filled.track.duration == known.track.duration,
        known.track.duration is None ==> filled.track.duration == duration,
{
}

/// What is recorded of an entry is recorded of that one and no other, and is a change only if
/// something was not known.
pub proof fn only_the_entry_itself_is_filled_in(queue: QueueModel, at: int, item: QueueItem)
    requires
        queue.wf(),
        0 <= at < queue.items.len(),
        item.id == queue.items[at].id,
    ensures
        ({
            let after = queue.recorded(item.id, item);
            &&& after.items == queue.items.update(at, item)
            &&& after.order == queue.order
            &&& after.current == queue.current
            &&& item == queue.items[at] ==> after == queue
        }),
{
    assert(queue.ids()[at] == item.id);
    queue.ids().index_of_first_ensures(item.id);
    assert(queue.recorded(item.id, item).items =~= queue.items.update(at, item));
}

/// A list shows the entries, the play order, what is playing and the modes as they are.
pub proof fn a_list_shows_the_queue(shown: QueueSnapshot, queue: QueueModel)
    requires
        shown.shows(queue),
    ensures
        shown.items@ == queue.items,
        shown.order@ == queue.order,
        shown.current == queue.current,
        shown.shuffle == queue.shuffle,
        shown.repeat == queue.repeat,
        shown.version == queue.version,
{
}

} // verus!
