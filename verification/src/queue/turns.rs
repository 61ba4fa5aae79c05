//! What the queue keeps from one moment to the next, and what it makes of an entry that is gone.

use super::chance::{generator_of, shuffle_of};
use super::inner::{peeked, Peeked};
use super::model::{ids_of, Offer, QueueModel};
use super::{either, entry_meta, ItemId, QueueItem, QueueTrack, Repeat};
use crate::control::Controller;
use crate::engine::supplier::Advance;
use crate::engine::types::{Command, TrackMeta, TrackRef};
use rand::rngs::StdRng;
use vstd::prelude::*;

verus! {

// ---- what there is -----------------------------------------------------------------------------

/// There is an entry with an id if, and only if, one of the entries has it; the ids are in the order
/// of the entries.
pub proof fn an_entry_exists_if_it_is_in_the_list(queue: QueueModel, id: ItemId)
    ensures
        queue.has(id) <==> exists|i: int|
            0 <= i < queue.items.len() && (#[trigger] queue.items[i]).id == id,
        queue.ids().len() == queue.items.len(),
        forall|i: int| 0 <= i < queue.items.len() ==> #[trigger] queue.ids()[i] == queue.items[i].id,
{
    if queue.has(id) {
        let i = choose|i: int| 0 <= i < queue.ids().len() && queue.ids()[i] == id;
        assert(queue.items[i].id == id);
    }
    if exists|i: int| 0 <= i < queue.items.len() && (#[trigger] queue.items[i]).id == id {
        let i = choose|i: int| 0 <= i < queue.items.len() && (#[trigger] queue.items[i]).id == id;
        assert(queue.ids()[i] == id);
    }
}

/// A new queue is empty: nothing is in it, playing, offered or remembered, it neither repeats nor
/// shuffles, and its first entry gets the id one.
pub proof fn a_new_queue_is_empty(seed: u64)
    ensures
        ({
            let queue = QueueModel::empty(seed);
            &&& queue.wf()
            &&& queue.items.len() == 0
            &&& queue.order.len() == 0
            &&& queue.current is None
            &&& queue.pending is None
            &&& !queue.pending_backward
            &&& queue.history.len() == 0
            &&& queue.vacated is None
            &&& queue.repeat is Off
            &&& !queue.shuffle
            &&& queue.next_id == 1
            &&& queue.version == 0
            &&& queue.rng == generator_of(seed)
        }),
{
    let queue = QueueModel::empty(seed);
    assert(queue.order =~= queue.ids());
}

/// New entries get the next ids, one after the other, for the tracks in their order.
pub proof fn new_entries_get_the_next_ids(queue: QueueModel, tracks: Seq<QueueTrack>, i: int)
    requires
        queue.next_id + tracks.len() <= u64::MAX,
        0 <= i < tracks.len(),
    ensures
        ids_of(queue.new_items(tracks)).len() == tracks.len(),
        ids_of(queue.new_items(tracks))[i].0 == queue.next_id + i,
        queue.new_items(tracks)[i].track == tracks[i],
{
}

/// What is told first of an entry counts, and what is known of it otherwise.
pub proof fn what_is_told_first_counts<A>(first: A, second: Option<A>)
    ensures
        either(Some(first), second) == Some(first),
        either(None, second) == second,
{
}

/// A look ahead shows the entry that would be offered, that there is none, or that it is not known
/// yet, since a new cycle would have to be shuffled first.
pub proof fn a_look_ahead_shows_what_would_be_offered(offer: Offer, id: ItemId)
    ensures
        peeked(offer) == Peeked::Next(id) <==> offer == Offer::Answer(Some(id)),
        peeked(offer) == Peeked::End <==> offer == Offer::Answer(None),
        peeked(offer) == Peeked::Unknown <==> offer is NewCycle,
{
}

// ---- versions ----------------------------------------------------------------------------------

/// An edit that a list would show is one more version, and one that it would not is none.
pub proof fn each_change_is_one_more_version(
    queue: QueueModel,
    at: nat,
    tracks: Seq<QueueTrack>,
    id: ItemId,
    repeat: Repeat,
    shuffle: bool,
    ids: Seq<ItemId>,
)
    requires
        queue.version < u64::MAX,
    ensures
        queue.insert(at, tracks).version == queue.version + 1,
        queue.play_next(tracks).version == queue.version + 1,
        queue.clear().version == queue.version + 1,
        queue.has(id) ==> queue.move_to(id, at).version == queue.version + 1,
        queue.has(id) && queue.current != Some(id) ==> queue.commit(id).version == queue.version
            + 1,
        queue.current == Some(id) ==> queue.commit(id).version == queue.version,
        queue.repeat != repeat ==> queue.set_repeat(repeat).version == queue.version + 1,
        queue.repeat == repeat ==> queue.set_repeat(repeat) == queue,
        queue.shuffle != shuffle ==> queue.set_shuffle(shuffle).version == queue.version + 1,
        queue.shuffle == shuffle ==> queue.set_shuffle(shuffle) == queue,
        queue.removals(ids) > 0 ==> queue.remove(ids).version == queue.version + 1,
        queue.removals(ids) == 0 ==> queue.remove(ids) == queue,
        queue.offered(Advance::Next, Some(id)).version == queue.version,
{
    super::laws::removing_what_does_not_exist_changes_nothing(queue, ids);
    assert(queue.version.wrapping_add(1) == queue.version + 1);
}

/// Moving an entry changes the rows it stands in and nothing else.
pub proof fn moving_changes_the_rows_only(queue: QueueModel, id: ItemId, to: nat)
    ensures
        ({
            let after = queue.move_to(id, to);
            after == (QueueModel {
                items: after.items,
                order: after.order,
                version: after.version,
                ..queue
            })
        }),
{
}

// ---- removing ----------------------------------------------------------------------------------

proof fn lemma_without_filters(s: Seq<ItemId>, id: ItemId)
    ensures
        super::model::without(s, id) == s.filter(|x: ItemId| x != id),
    decreases s.len(),
{
    reveal(Seq::filter);
    if s.len() > 0 {
        lemma_without_filters(s.drop_last(), id);
    }
}

/// What is removed is neither offered nor gone back to any more; other offers, and the rest of what
/// was played, stay. The place of the current entry is remembered if it is the one that goes, and
/// follows what is removed before it.
pub proof fn what_is_removed_is_forgotten(queue: QueueModel, id: ItemId, slot: int)
    requires
        queue.wf(),
        0 <= slot < queue.order.len(),
        queue.order[slot] == id,
    ensures
        ({
            let after = queue.remove_one(id);
            &&& after.history == queue.history.filter(|x: ItemId| x != id)
            &&& queue.pending == Some(id) ==> after.pending is None
            &&& queue.pending != Some(id) ==> after.pending == queue.pending
            &&& after.pending_backward == queue.pending_backward
            &&& queue.current == Some(id) ==> after.current is None && after.vacated == Some(
                slot as nat,
            )
            &&& queue.current != Some(id) ==> after.current == queue.current
            &&& queue.current != Some(id) ==> match queue.vacated {
                Some(place) => after.vacated == Some(
                    if slot < place {
                        (place - 1) as nat
                    } else {
                        place
                    },
                ),
                None => after.vacated is None,
            }
        }),
{
    lemma_without_filters(queue.history, id);
    assert(queue.order.contains(id));
    queue.order.index_of_first_ensures(id);
    assert(queue.has(id));
}

/// Behind an entry that was removed while it played comes the one that took its place, whether it is
/// skipped to or reached; at the end, what the mode says. Before it comes the one that preceded it.
pub proof fn what_surrounds_an_entry_that_is_gone(queue: QueueModel)
    requires
        queue.wf(),
        queue.current is None,
        queue.pending is None,
        queue.vacated is Some,
    ensures
        ({
            let slot = queue.vacated->0 as int;
            let behind = Offer::Answer(Some(queue.order[slot]));
            let over = if queue.shuffle {
                Offer::NewCycle
            } else {
                Offer::Answer(Some(queue.order[0]))
            };
            let some = queue.order.len() > 0;
            let last = slot == queue.order.len();
            &&& !last ==> queue.offer(Advance::Next) == behind
            &&& !last && !(queue.repeat is One) ==> queue.offer(Advance::Auto) == behind
            &&& some && queue.repeat is One ==> queue.offer(Advance::Auto) == Offer::Answer(
                Some(queue.order[0]),
            )
            &&& last && queue.repeat is Off ==> queue.offer(Advance::Next) == Offer::Answer(None)
                && queue.offer(Advance::Auto) == Offer::Answer(None)
            &&& last && some && !(queue.repeat is Off) ==> queue.offer(Advance::Next) == over
            &&& last && some && queue.repeat is All ==> queue.offer(Advance::Auto) == over
            &&& queue.offer(Advance::Restart) == Offer::Answer(None)
            &&& queue.history.len() == 0 && slot > 0 ==> queue.offer(Advance::Previous)
                == Offer::Answer(Some(queue.order[slot - 1]))
            &&& queue.history.len() == 0 && slot == 0 ==> queue.offer(Advance::Previous)
                == Offer::Answer(None)
            &&& queue.history.len() > 0 ==> queue.offer(Advance::Previous) == Offer::Answer(
                Some(queue.history.last()),
            )
        }),
{
}

/// Tracks that are put in before the place of an entry that is gone push that place along, and tracks
/// put in at or behind it do not.
pub proof fn the_place_of_what_is_gone_is_pushed_along(
    queue: QueueModel,
    items_at: nat,
    order_at: nat,
    tracks: Seq<QueueTrack>,
)
    ensures
        queue.vacated matches Some(slot) ==> {
            let after = queue.put_in(items_at, order_at, tracks);
            &&& order_at < slot ==> after.vacated == Some(slot + tracks.len())
            &&& order_at >= slot ==> after.vacated == Some(slot)
        },
        queue.vacated is None ==> queue.put_in(items_at, order_at, tracks).vacated is None,
{
}

// ---- shuffling ---------------------------------------------------------------------------------

/// Turning shuffle on plays on with the current entry, and then the others as they come out of the
/// generator; without one, everything as it comes out of it.
pub proof fn shuffling_begins_with_the_current_entry(queue: QueueModel, at: int)
    requires
        queue.wf(),
        !queue.shuffle,
    ensures
        ({
            let after = queue.set_shuffle(true);
            &&& after.pending == queue.pending
            &&& after.history == queue.history
            &&& after.vacated is None
            &&& after.next_id == queue.next_id
            &&& queue.current is None ==> (after.order, after.rng) == shuffle_of(
                queue.ids(),
                queue.rng,
            )
            &&& 0 <= at < queue.items.len() && queue.current == Some(queue.items[at].id) ==> {
                let (others, rng) = shuffle_of(queue.ids().remove(at), queue.rng);
                &&& after.order[0] == queue.items[at].id
                &&& after.order.skip(1) == others
                &&& after.rng == rng
            }
        }),
{
    let after = queue.set_shuffle(true);
    if 0 <= at < queue.items.len() && queue.current == Some(queue.items[at].id) {
        assert(queue.ids()[at] == queue.items[at].id);
        queue.ids().index_of_first_ensures(queue.items[at].id);
        let (others, rng) = shuffle_of(queue.ids().remove(at), queue.rng);
        assert((seq![queue.items[at].id] + others).skip(1) =~= others);
    }
}

/// Turning shuffle off keeps what is offered and what was played, and draws nothing.
pub proof fn turning_shuffle_off_draws_nothing(queue: QueueModel)
    requires
        queue.shuffle,
    ensures
        ({
            let after = queue.set_shuffle(false);
            &&& after.rng == queue.rng
            &&& after.pending == queue.pending
            &&& after.history == queue.history
            &&& after.vacated is None
            &&& after.order == queue.ids()
        }),
{
}

/// A new cycle is the entries as they come out of the generator, unless they open with the one that
/// closed the last cycle: it is then the second, and the second the first.
pub proof fn a_new_cycle_does_not_open_with_what_closed_the_last(queue: QueueModel)
    ensures
        ({
            let (drawn, left) = shuffle_of(queue.order, queue.rng);
            let (order, rng) = queue.next_cycle();
            let repeats = drawn.len() >= 2 && queue.base_id() == Some(drawn[0]);
            &&& rng == left
            &&& order.len() == drawn.len()
            &&& !repeats ==> order == drawn
            &&& repeats ==> order[0] == drawn[1] && order[1] == drawn[0] && order.skip(2)
                == drawn.skip(2)
            &&& drawn.len() >= 2 && drawn[0] != drawn[1] ==> queue.base_id() != Some(order[0])
        }),
{
    let (drawn, left) = shuffle_of(queue.order, queue.rng);
    let (order, rng) = queue.next_cycle();
    if drawn.len() >= 2 && queue.base_id() == Some(drawn[0]) {
        assert(order.skip(2) =~= drawn.skip(2));
    }
}

/// A new cycle that was begun is the play order, and its first entry is the one that was offered.
pub proof fn a_new_cycle_offers_its_first_entry(
    queue: QueueModel,
    how: Advance,
    order: Seq<ItemId>,
    rng: StdRng,
)
    ensures
        ({
            let after = queue.cycled(how, order, rng);
            &&& after.order == order
            &&& after.rng == rng
            &&& after.pending == Some(order[0])
            &&& after.pending_backward == (how is Previous)
            &&& after.items == queue.items
            &&& after.current == queue.current
            &&& after.history == queue.history
            &&& after.shuffle == queue.shuffle
            &&& after.repeat == queue.repeat
            &&& queue.version < u64::MAX ==> after.version == queue.version + 1
        }),
{
}

/// What was last offered is what the next offer is measured from, and what is playing if nothing was.
pub proof fn the_next_offer_is_measured_from_the_last(queue: QueueModel, id: ItemId)
    ensures
        queue.pending == Some(id) ==> queue.base_id() == Some(id),
        queue.pending is None ==> queue.base_id() == queue.current,
{
}

// ---- references --------------------------------------------------------------------------------

/// The reference that stands for an entry stands for that entry and no other.
pub proof fn a_reference_stands_for_its_entry(
    id: ItemId,
    track: TrackRef,
    again: Option<ItemId>,
    other: ItemId,
    another: TrackRef,
)
    requires
        call_ensures(ItemId::track_ref, (id,), track),
        call_ensures(ItemId::from_ref, (&track,), again),
        call_ensures(ItemId::track_ref, (other,), another),
    ensures
        again == Some(id),
        track.0@ == another.0@ <==> id == other,
{
    super::item_ids_round_trip(id);
    super::item_ids_round_trip(other);
}

/// What the engine is handed for an entry is known by the reference of that entry, with what opening
/// it revealed before what the queue knew.
pub proof fn an_entry_is_handed_on_under_its_reference(
    item: QueueItem,
    found: TrackMeta,
    r: TrackMeta,
    track: TrackRef,
)
    requires
        call_ensures(entry_meta, (&item, found), r),
        call_ensures(ItemId::track_ref, (item.id,), track),
    ensures
        r.track.0@ == track.0@,
        found.title is Some ==> r.title == found.title,
        found.title is None ==> r.title == item.track.title,
        found.duration is Some ==> r.duration == found.duration,
        found.duration is None ==> r.duration == item.track.duration,
{
}

/// An entry that exists can be played, under its reference, and one that does not is refused.
pub proof fn an_entry_that_exists_can_be_played(
    controller: Controller,
    id: ItemId,
    r: Result<Command, String>,
    track: TrackRef,
)
    requires
        call_ensures(Controller::play_item, (&controller, id), r),
        call_ensures(ItemId::track_ref, (id,), track),
    ensures
        r is Ok <==> controller@.has(id),
        r matches Ok(command) ==> (command matches Command::Play(Some(wanted)) && wanted.0@
            == track.0@),
{
}

} // verus!
