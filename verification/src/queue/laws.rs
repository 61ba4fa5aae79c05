//! What holds of the queue whatever is done to it.

use super::model::{
    filled_in, ids_of, lesser, meta_recorded, reordered, spliced, without, Offer, QueueModel, HISTORY_LIMIT,
};
use super::{ItemId, QueueItem, QueueTrack, Repeat};
use crate::engine::supplier::Advance;
use crate::time::Duration;
use rand::rngs::StdRng;
use vstd::prelude::*;

verus! {

proof fn lemma_spliced<A>(s: Seq<A>, at: int, new: Seq<A>)
    requires
        0 <= at <= s.len(),
    ensures
        forall|x: A| #[trigger] spliced(s, at, new).contains(x) <==> s.contains(x) || new.contains(x),
        s.no_duplicates() && new.no_duplicates() && (forall|x: A|
            !(#[trigger] s.contains(x) && new.contains(x))) ==> spliced(s, at, new).no_duplicates(),
        spliced(s, at, new).len() == s.len() + new.len(),
{
    let r = spliced(s, at, new);
    let n = new.len() as int;
    assert forall|x: A| #[trigger] r.contains(x) <==> s.contains(x) || new.contains(x) by {
        if r.contains(x) {
            let i = choose|i: int| 0 <= i < r.len() && r[i] == x;
            if i < at {
                assert(s[i] == x);
            } else if i < at + n {
                assert(new[i - at] == x);
            } else {
                assert(s[i - n] == x);
            }
        }
        if s.contains(x) {
            let i = choose|i: int| 0 <= i < s.len() && s[i] == x;
            if i < at {
                assert(r[i] == x);
            } else {
                assert(r[i + n] == x);
            }
        }
        if new.contains(x) {
            let i = choose|i: int| 0 <= i < new.len() && new[i] == x;
            assert(r[i + at] == x);
        }
    }
    if s.no_duplicates() && new.no_duplicates() && (forall|x: A|
        !(#[trigger] s.contains(x) && new.contains(x))) {
        assert forall|i: int, j: int| 0 <= i < r.len() && 0 <= j < r.len() && i != j implies r[i]
            != r[j] by {
            let from_new_i = at <= i < at + n;
            let from_new_j = at <= j < at + n;
            if from_new_i && from_new_j {
                assert(r[i] == new[i - at] && r[j] == new[j - at]);
            } else if from_new_i {
                assert(new.contains(r[i]));
                assert(s.contains(r[j])) by {
                    if j < at {
                        assert(r[j] == s[j]);
                    } else {
                        assert(r[j] == s[j - n]);
                    }
                }
            } else if from_new_j {
                assert(new.contains(r[j]));
                assert(s.contains(r[i])) by {
                    if i < at {
                        assert(r[i] == s[i]);
                    } else {
                        assert(r[i] == s[i - n]);
                    }
                }
            } else {
                let i0 = if i < at {
                    i
                } else {
                    i - n
                };
                let j0 = if j < at {
                    j
                } else {
                    j - n
                };
                assert(r[i] == s[i0] && r[j] == s[j0]);
            }
        }
    }
}

proof fn lemma_removed<A>(s: Seq<A>, at: int)
    requires
        0 <= at < s.len(),
        s.no_duplicates(),
    ensures
        s.remove(at).no_duplicates(),
        forall|x: A| #[trigger] s.remove(at).contains(x) <==> s.contains(x) && x != s[at],
        s.remove(at).len() == s.len() - 1,
{
    let r = s.remove(at);
    assert forall|x: A| #[trigger] r.contains(x) <==> s.contains(x) && x != s[at] by {
        if r.contains(x) {
            let i = choose|i: int| 0 <= i < r.len() && r[i] == x;
            let i0 = if i < at {
                i
            } else {
                i + 1
            };
            assert(s[i0] == x);
        }
        if s.contains(x) && x != s[at] {
            let i = choose|i: int| 0 <= i < s.len() && s[i] == x;
            let i0 = if i < at {
                i
            } else {
                i - 1
            };
            assert(r[i0] == x);
        }
    }
}

proof fn lemma_without(s: Seq<ItemId>, id: ItemId)
    ensures
        without(s, id).len() <= s.len(),
        forall|x: ItemId| #[trigger] without(s, id).contains(x) <==> s.contains(x) && x != id,
    decreases s.len(),
{
    if s.len() > 0 {
        let shorter = s.drop_last();
        lemma_without(shorter, id);
        assert forall|x: ItemId| #[trigger] without(s, id).contains(x) <==> s.contains(x) && x
            != id by {
            let r = without(shorter, id);
            if s.contains(x) && x != id {
                let i = choose|i: int| 0 <= i < s.len() && s[i] == x;
                if i < s.len() - 1 {
                    assert(shorter[i] == x);
                    assert(r.contains(x));
                    let j = choose|j: int| 0 <= j < r.len() && r[j] == x;
                    assert(without(s, id)[j] == x);
                } else {
                    assert(without(s, id)[r.len() as int] == x);
                }
            }
            if without(s, id).contains(x) {
                let i = choose|i: int| 0 <= i < without(s, id).len() && without(s, id)[i] == x;
                if i < r.len() {
                    assert(r[i] == x);
                    assert(r.contains(x));
                    let j = choose|j: int| 0 <= j < shorter.len() && shorter[j] == x;
                    assert(s[j] == x);
                } else {
                    assert(s.last() == x);
                }
            }
        }
    }
}

proof fn lemma_ids_of_spliced(items: Seq<QueueItem>, at: int, new: Seq<QueueItem>)
    requires
        0 <= at <= items.len(),
    ensures
        ids_of(spliced(items, at, new)) == spliced(ids_of(items), at, ids_of(new)),
{
    assert(ids_of(spliced(items, at, new)) =~= spliced(ids_of(items), at, ids_of(new)));
}

pub(super) proof fn lemma_put_in_keeps_wf(
    queue: QueueModel,
    items_at: nat,
    order_at: nat,
    tracks: Seq<QueueTrack>,
)
    requires
        queue.wf(),
        queue.next_id + tracks.len() <= u64::MAX,
        items_at <= queue.items.len(),
        order_at <= queue.order.len(),
        !queue.shuffle ==> items_at == order_at,
    ensures
        queue.put_in(items_at, order_at, tracks).wf(),
{
    let new = queue.new_items(tracks);
    let after = queue.put_in(items_at, order_at, tracks);
    lemma_ids_of_spliced(queue.items, items_at as int, new);
    assert(ids_of(new).no_duplicates());
    assert forall|x: ItemId| !(#[trigger] queue.ids().contains(x) && ids_of(new).contains(x)) by {
        if queue.ids().contains(x) && ids_of(new).contains(x) {
            let i = choose|i: int| 0 <= i < queue.ids().len() && queue.ids()[i] == x;
            assert(queue.items[i].id.0 < queue.next_id);
            let j = choose|j: int| 0 <= j < ids_of(new).len() && ids_of(new)[j] == x;
            assert(new[j].id.0 >= queue.next_id);
        }
    }
    assert forall|x: ItemId| !(#[trigger] queue.order.contains(x) && ids_of(new).contains(x)) by {
        assert(queue.order.contains(x) == queue.ids().contains(x));
    }
    lemma_spliced(queue.ids(), items_at as int, ids_of(new));
    lemma_spliced(queue.order, order_at as int, ids_of(new));
    assert(after.order.len() == after.items.len());
    assert forall|id: ItemId| #[trigger] after.order.contains(id) <==> after.has(id) by {
        assert(queue.order.contains(id) == queue.has(id));
    }
    assert forall|i: int| 0 <= i < after.items.len() implies 0 < (#[trigger] after.items[i]).id.0
        < after.next_id by {
        let n = new.len() as int;
        if i < items_at {
            assert(after.items[i] == queue.items[i]);
        } else if i < items_at + n {
            assert(after.items[i] == new[i - items_at]);
        } else {
            assert(after.items[i] == queue.items[i - n]);
        }
    }
    assert forall|i: int| 0 <= i < after.history.len() implies after.has(
        #[trigger] after.history[i],
    ) by {
        assert(queue.has(queue.history[i]));
    }
}

pub(super) proof fn lemma_remove_one_keeps_wf(queue: QueueModel, id: ItemId)
    requires
        queue.wf(),
    ensures
        queue.remove_one(id).wf(),
{
    if queue.has(id) {
        let after = queue.remove_one(id);
        let at = queue.ids().index_of_first(id)->0;
        let slot = queue.order.index_of_first(id)->0;
        queue.ids().index_of_first_ensures(id);
        queue.order.index_of_first_ensures(id);
        assert(queue.order.contains(id));
        lemma_removed(queue.ids(), at);
        lemma_removed(queue.order, slot);
        assert(after.ids() =~= queue.ids().remove(at));
        assert forall|x: ItemId| #[trigger] after.order.contains(x) <==> after.has(x) by {
            assert(queue.order.contains(x) == queue.has(x));
        }
        assert forall|i: int| 0 <= i < after.items.len() implies 0 < (
        #[trigger] after.items[i]).id.0 < after.next_id by {
            let i0 = if i < at {
                i
            } else {
                i + 1
            };
            assert(after.items[i] == queue.items[i0]);
        }
        lemma_without(queue.history, id);
        assert forall|i: int| 0 <= i < after.history.len() implies after.has(
            #[trigger] after.history[i],
        ) by {
            let x = after.history[i];
            assert(after.history.contains(x));
            let j = choose|j: int| 0 <= j < queue.history.len() && queue.history[j] == x;
            assert(queue.has(queue.history[j]));
        }
        if !queue.shuffle {
            assert(at == slot);
        }
    }
}

pub(super) proof fn lemma_move_to_keeps_wf(queue: QueueModel, id: ItemId, to: nat)
    requires
        queue.wf(),
    ensures
        queue.move_to(id, to).wf(),
{
    if queue.has(id) {
        let after = queue.move_to(id, to);
        let from = queue.ids().index_of_first(id)->0;
        queue.ids().index_of_first_ensures(id);
        let rest = queue.items.remove(from);
        let at = lesser(to, rest.len()) as int;
        lemma_removed(queue.ids(), from);
        assert(ids_of(rest) =~= queue.ids().remove(from));
        assert(after.ids() =~= spliced(ids_of(rest), at, seq![id]));
        assert(seq![id].contains(id)) by {
            assert(seq![id][0] == id);
        }
        lemma_spliced(ids_of(rest), at, seq![id]);
        assert forall|x: ItemId| #[trigger] after.has(x) <==> queue.has(x) by {}
        assert forall|x: ItemId| #[trigger] after.order.contains(x) <==> after.has(x) by {
            assert(queue.order.contains(x) == queue.has(x));
        }
        assert forall|i: int| 0 <= i < after.items.len() implies 0 < (
        #[trigger] after.items[i]).id.0 < after.next_id by {
            let x = after.ids()[i];
            assert(after.ids().contains(x));
            let j = choose|j: int| 0 <= j < queue.ids().len() && queue.ids()[j] == x;
            assert(queue.items[j].id == x);
        }
        assert forall|i: int| 0 <= i < after.history.len() implies after.has(
            #[trigger] after.history[i],
        ) by {
            assert(queue.has(queue.history[i]));
        }
    }
}

/// A reordering of ids that are unique holds the same ids, each once.
pub(super) proof fn lemma_reordered(a: Seq<ItemId>, b: Seq<ItemId>)
    requires
        reordered(a, b),
        b.no_duplicates(),
    ensures
        a.no_duplicates(),
        a.len() == b.len(),
        forall|id: ItemId| #[trigger] a.contains(id) <==> b.contains(id),
{
    broadcast use vstd::seq_lib::group_to_multiset_ensures;

    b.lemma_multiset_has_no_duplicates();
    a.lemma_multiset_has_no_duplicates_conv();
    assert(a.to_multiset().len() == b.to_multiset().len());
    assert forall|id: ItemId| #[trigger] a.contains(id) <==> b.contains(id) by {
        assert(a.to_multiset().count(id) == b.to_multiset().count(id));
    }
}

pub(super) proof fn lemma_moved_to_the_front(
    all: Seq<ItemId>,
    at: int,
    others: Seq<ItemId>,
    order: Seq<ItemId>,
)
    requires
        0 <= at < all.len(),
        reordered(others, all.remove(at)),
        order == seq![all[at]] + others,
    ensures
        reordered(order, all),
{
    broadcast use vstd::seq_lib::group_to_multiset_ensures;
    broadcast use vstd::multiset::group_multiset_axioms;

    vstd::seq_lib::lemma_multiset_commutative(seq![all[at]], others);
    assert(seq![all[at]] =~= Seq::<ItemId>::empty().push(all[at]));
    assert(all.contains(all[at]));
    assert(order.to_multiset() =~= all.to_multiset());
}

pub(super) proof fn lemma_reordered_keeps_wf(
    queue: QueueModel,
    after: QueueModel,
    row: Seq<ItemId>,
)
    requires
        queue.wf(),
        row == queue.ids() || row == queue.order,
        reordered(after.order, row),
        after.shuffle,
        after.items == queue.items,
        after.next_id == queue.next_id,
        after.current == queue.current,
        after.pending == queue.pending || (after.pending matches Some(id) && queue.has(id)),
        after.history == queue.history,
        after.vacated is None || after.vacated == queue.vacated,
    ensures
        after.wf(),
{
    lemma_reordered(after.order, row);
    assert forall|id: ItemId| #[trigger] after.order.contains(id) <==> after.has(id) by {
        assert(queue.order.contains(id) == queue.has(id));
        assert(after.order.contains(id) == row.contains(id));
    }
    assert forall|i: int| 0 <= i < after.history.len() implies after.has(
        #[trigger] after.history[i],
    ) by {
        assert(queue.has(queue.history[i]));
    }
}

pub(super) proof fn lemma_swapped(before: Seq<ItemId>, after: Seq<ItemId>)
    requires
        before.len() >= 2,
        after == before.update(0, before[1]).update(1, before[0]),
    ensures
        reordered(after, before),
{
    broadcast use vstd::seq_lib::group_to_multiset_ensures;
    broadcast use vstd::multiset::group_multiset_axioms;

    let rest = before.skip(2);
    let forward = seq![before[0], before[1]];
    let swapped = seq![before[1], before[0]];
    assert(before =~= forward + rest);
    assert(after =~= swapped + rest);
    vstd::seq_lib::lemma_multiset_commutative(forward, rest);
    vstd::seq_lib::lemma_multiset_commutative(swapped, rest);
    assert(forward =~= Seq::<ItemId>::empty().push(before[0]).push(before[1]));
    assert(swapped =~= Seq::<ItemId>::empty().push(before[1]).push(before[0]));
    assert(forward.to_multiset() =~= swapped.to_multiset());
}

pub(super) proof fn lemma_commit_keeps_wf(queue: QueueModel, id: ItemId)
    requires
        queue.wf(),
    ensures
        queue.commit(id).wf(),
{
    let after = queue.commit(id);
    assert(after.ids() == queue.ids());
    if queue.has(id) && queue.current != Some(id) {
        let history = queue.history_after(id);
        assert forall|i: int| 0 <= i < history.len() implies after.has(#[trigger] history[i]) by {
            if queue.history.len() > 0 && queue.history.last() == id {
                assert(history[i] == queue.history[i]);
            } else if queue.pending == Some(id) && queue.pending_backward {
            } else if queue.current is Some {
                let longer = queue.history.push(queue.current->0);
                let j = if longer.len() > HISTORY_LIMIT {
                    i + 1
                } else {
                    i
                };
                assert(history[i] == longer[j]);
                if j < queue.history.len() {
                    assert(longer[j] == queue.history[j]);
                }
            }
        }
    }
}

// ---- what the queue offers ---------------------------------------------------------------------

/// The queue only ever offers entries that exist, so opening what it offers always succeeds.
pub proof fn what_is_offered_exists(queue: QueueModel, how: Advance)
    requires
        queue.wf(),
    ensures
        queue.offer(how) matches Offer::Answer(Some(id)) ==> queue.has(id) && queue.order.contains(id),
{
    if let Offer::Answer(Some(id)) = queue.offer(how) {
        if queue.base_id() is Some {
            queue.order.index_of_first_ensures(queue.base_id()->0);
            assert(queue.order.contains(queue.base_id()->0));
        }
        if queue.order.len() > 0 {
            assert(queue.order.contains(queue.order[0]));
            assert(queue.order.contains(queue.order.last()));
        }
        let next = queue.next_slot() as int;
        if next < queue.order.len() {
            assert(queue.order.contains(queue.order[next]));
        }
        if queue.history.len() > 0 {
            assert(queue.has(queue.history[queue.history.len() - 1]));
        }
        if queue.vacated is Some && queue.vacated->0 > 0 {
            assert(queue.order.contains(queue.order[queue.vacated->0 - 1]));
        }
        if queue.base_id() is Some && queue.order.index_of_first(queue.base_id()->0)->0 > 0 {
            let at = queue.order.index_of_first(queue.base_id()->0)->0;
            assert(queue.order.contains(queue.order[at - 1]));
        }
        assert(queue.order.contains(id));
    }
}

// ---- every edit ----------------------------------------------------------------------------------

/// Something that can be done to a queue.
pub enum Edit {
    /// Tracks are inserted at a place.
    Insert(nat, Seq<QueueTrack>),
    /// Tracks are put right after the one playing.
    PlayNext(Seq<QueueTrack>),
    /// Entries are removed.
    Remove(Seq<ItemId>),
    /// An entry is moved to a place.
    MoveTo(ItemId, nat),
    /// Everything is removed.
    Clear,
    /// The repeat mode is set.
    SetRepeat(Repeat),
    /// What opening an entry revealed, its title and its length, is recorded, with this as the
    /// entry afterwards.
    RecordMeta(ItemId, Option<Seq<char>>, Option<Duration>, QueueItem),
    /// Shuffle is turned on, with this as the outcome.
    Shuffle(Seq<ItemId>, StdRng),
    /// Shuffle is turned off.
    Unshuffle,
    /// The queue is asked what comes next, and has an answer.
    Offer(Advance),
    /// The queue is asked what comes next, and starts a new cycle in this order.
    NewCycle(Advance, Seq<ItemId>, StdRng),
    /// The engine opens an entry.
    Commit(ItemId),
}

/// Whether `edit` can be done to `queue`, and end as it says.
pub open spec fn possible(queue: QueueModel, edit: Edit) -> bool {
    match edit {
        Edit::Insert(_, tracks) => queue.next_id + tracks.len() <= u64::MAX,
        Edit::PlayNext(tracks) => queue.next_id + tracks.len() <= u64::MAX,
        Edit::RecordMeta(id, title, duration, item) => queue.has(id) ==> filled_in(
            queue.items[queue.ids().index_of_first(id)->0],
            item,
            title,
            duration,
        ),
        Edit::Shuffle(order, _) => {
            &&& !queue.shuffle
            &&& reordered(order, queue.ids())
            &&& queue.current matches Some(id) ==> order[0] == id
        },
        Edit::Unshuffle => queue.shuffle,
        Edit::Offer(how) => queue.offer(how) is Answer,
        Edit::NewCycle(how, order, _) => queue.offer(how) is NewCycle && queue.new_cycle(order),
        _ => true,
    }
}

/// The queue after `edit`.
pub open spec fn edited(queue: QueueModel, edit: Edit) -> QueueModel {
    match edit {
        Edit::Insert(at, tracks) => queue.insert(at, tracks),
        Edit::PlayNext(tracks) => queue.play_next(tracks),
        Edit::Remove(ids) => queue.remove(ids),
        Edit::MoveTo(id, to) => queue.move_to(id, to),
        Edit::Clear => queue.clear(),
        Edit::SetRepeat(repeat) => queue.set_repeat(repeat),
        Edit::RecordMeta(id, _, _, item) => queue.recorded(id, item),
        Edit::Shuffle(order, rng) => queue.shuffled(order, rng),
        Edit::Unshuffle => queue.unshuffled(),
        Edit::Offer(how) => queue.offered(how, queue.offer(how)->Answer_0),
        Edit::NewCycle(how, order, rng) => queue.cycled(how, order, rng),
        Edit::Commit(id) => queue.commit(id),
    }
}

proof fn lemma_remove_each_keeps_wf(queue: QueueModel, ids: Seq<ItemId>)
    requires
        queue.wf(),
    ensures
        queue.remove_each(ids).wf(),
    decreases ids.len(),
{
    if ids.len() > 0 {
        lemma_remove_each_keeps_wf(queue, ids.drop_last());
        lemma_remove_one_keeps_wf(queue.remove_each(ids.drop_last()), ids.last());
    }
}

proof fn lemma_recording_keeps_the_ids(queue: QueueModel, id: ItemId, item: QueueItem)
    requires
        queue.wf(),
        queue.has(id) ==> item.id == queue.items[queue.ids().index_of_first(id)->0].id,
    ensures
        queue.recorded(id, item).ids() == queue.ids(),
{
    if queue.has(id) {
        queue.ids().index_of_first_ensures(id);
        assert(queue.recorded(id, item).ids() =~= queue.ids());
    }
}

/// Whatever is done to a queue, its invariant holds: the play order is a permutation of the
/// entries, the ids are unique, and the cursor, the offer and the history only mention entries
/// that exist.
pub proof fn every_edit_keeps_the_invariant(queue: QueueModel, edit: Edit)
    requires
        queue.wf(),
        possible(queue, edit),
    ensures
        edited(queue, edit).wf(),
{
    let after = edited(queue, edit);
    match edit {
        Edit::Insert(at, tracks) => {
            let at = lesser(at, queue.items.len());
            lemma_put_in_keeps_wf(
                queue,
                at,
                if queue.shuffle {
                    queue.order.len()
                } else {
                    at
                },
                tracks,
            );
        },
        Edit::PlayNext(tracks) => {
            if queue.current is Some {
                queue.ids().index_of_first_ensures(queue.current->0);
                queue.order.index_of_first_ensures(queue.current->0);
            }
            lemma_put_in_keeps_wf(
                queue,
                queue.next_place(queue.ids()),
                queue.next_place(queue.order),
                tracks,
            );
        },
        Edit::Remove(ids) => {
            lemma_remove_each_keeps_wf(queue, ids);
            assert(after.ids() == queue.remove_each(ids).ids());
        },
        Edit::MoveTo(id, to) => {
            lemma_move_to_keeps_wf(queue, id, to);
        },
        Edit::Clear => {
            assert(after.ids() =~= Seq::<ItemId>::empty());
        },
        Edit::SetRepeat(_) => {
            assert(after.ids() == queue.ids());
        },
        Edit::RecordMeta(id, _, _, item) => {
            lemma_recording_keeps_the_ids(queue, id, item);
            assert forall|i: int| 0 <= i < after.items.len() implies 0 < (
            #[trigger] after.items[i]).id.0 < after.next_id by {
                assert(after.ids()[i] == queue.ids()[i]);
                assert(queue.items[i].id == queue.ids()[i]);
            }
        },
        Edit::Shuffle(_, _) => {
            lemma_reordered_keeps_wf(queue, after, queue.ids());
        },
        Edit::Unshuffle => {
            assert(after.ids() == queue.ids());
        },
        Edit::Offer(how) => {
            what_is_offered_exists(queue, how);
            assert(after.ids() == queue.ids());
        },
        Edit::NewCycle(_, order, _) => {
            lemma_reordered(order, queue.order);
            assert(order.contains(order[0]));
            assert(queue.order.contains(order[0]));
            lemma_reordered_keeps_wf(queue, after, queue.order);
        },
        Edit::Commit(id) => {
            lemma_commit_keeps_wf(queue, id);
        },
    }
}

proof fn lemma_removing_adds_nothing(queue: QueueModel, ids: Seq<ItemId>, id: ItemId)
    requires
        queue.wf(),
        !queue.has(id),
    ensures
        !queue.remove_each(ids).has(id),
        queue.remove_each(ids).next_id == queue.next_id,
    decreases ids.len(),
{
    if ids.len() > 0 {
        let before = queue.remove_each(ids.drop_last());
        lemma_removing_adds_nothing(queue, ids.drop_last(), id);
        lemma_remove_each_keeps_wf(queue, ids.drop_last());
        if before.has(ids.last()) {
            let at = before.ids().index_of_first(ids.last())->0;
            before.ids().index_of_first_ensures(ids.last());
            lemma_removed(before.ids(), at);
            assert(before.remove_one(ids.last()).ids() =~= before.ids().remove(at));
        }
    }
}

/// An id that was handed out and whose entry is gone never comes back, whatever is done next: ids
/// are not reused.
pub proof fn ids_are_never_reused(queue: QueueModel, edit: Edit, gone: ItemId)
    requires
        queue.wf(),
        possible(queue, edit),
        gone.0 < queue.next_id,
        !queue.has(gone),
    ensures
        !edited(queue, edit).has(gone),
        gone.0 < edited(queue, edit).next_id,
{
    let after = edited(queue, edit);
    match edit {
        Edit::Insert(_, _) | Edit::PlayNext(_) => {
            let (items_at, tracks) = match edit {
                Edit::Insert(at, tracks) => (lesser(at, queue.items.len()), tracks),
                Edit::PlayNext(tracks) => (queue.next_place(queue.ids()), tracks),
                _ => (0nat, Seq::empty()),
            };
            if queue.current is Some {
                queue.ids().index_of_first_ensures(queue.current->0);
            }
            let new = queue.new_items(tracks);
            lemma_ids_of_spliced(queue.items, items_at as int, new);
            lemma_spliced(queue.ids(), items_at as int, ids_of(new));
            assert(!ids_of(new).contains(gone)) by {
                if ids_of(new).contains(gone) {
                    let j = choose|j: int| 0 <= j < ids_of(new).len() && ids_of(new)[j] == gone;
                    assert(new[j].id.0 >= queue.next_id);
                }
            }
            assert(after.ids() == spliced(queue.ids(), items_at as int, ids_of(new)));
        },
        Edit::Remove(ids) => {
            lemma_removing_adds_nothing(queue, ids, gone);
            assert(after.ids() == queue.remove_each(ids).ids());
        },
        Edit::MoveTo(id, to) => {
            if queue.has(id) {
                let from = queue.ids().index_of_first(id)->0;
                queue.ids().index_of_first_ensures(id);
                let rest = queue.items.remove(from);
                let at = lesser(to, rest.len()) as int;
                lemma_removed(queue.ids(), from);
                assert(ids_of(rest) =~= queue.ids().remove(from));
                assert(after.ids() =~= spliced(ids_of(rest), at, seq![id]));
                lemma_spliced(ids_of(rest), at, seq![id]);
            }
        },
        Edit::Clear => {
            assert(after.ids() =~= Seq::<ItemId>::empty());
        },
        Edit::RecordMeta(id, _, _, item) => {
            lemma_recording_keeps_the_ids(queue, id, item);
        },
        _ => {
            assert(after.ids() == queue.ids());
        },
    }
}

/// Whatever changes what a list shows of the queue increases the version, so that comparing
/// versions is enough to know whether to show it anew.
pub proof fn a_visible_change_increases_the_version(queue: QueueModel, edit: Edit)
    requires
        queue.wf(),
        possible(queue, edit),
        queue.version < u64::MAX,
    ensures
        ({
            let after = edited(queue, edit);
            ||| after.version > queue.version
            ||| {
                &&& after.version == queue.version
                &&& after.items == queue.items
                &&& after.order == queue.order
                &&& after.current == queue.current
                &&& after.repeat == queue.repeat
                &&& after.shuffle == queue.shuffle
            }
        }),
{
    if let Edit::Remove(ids) = edit {
        removing_what_does_not_exist_changes_nothing(queue, ids);
    }
}

/// Removing ids of which none exists leaves the queue as it is; and taking entries out does not by
/// itself touch the version.
pub proof fn removing_what_does_not_exist_changes_nothing(queue: QueueModel, ids: Seq<ItemId>)
    ensures
        queue.remove_each(ids).version == queue.version,
        queue.removals(ids) == 0 ==> queue.remove_each(ids) == queue,
    decreases ids.len(),
{
    if ids.len() > 0 {
        removing_what_does_not_exist_changes_nothing(queue, ids.drop_last());
    }
}

// ---- the cursor ----------------------------------------------------------------------------------

/// Being asked what comes next does not move the cursor; only opening an entry does.
pub proof fn offering_does_not_move_the_cursor(queue: QueueModel, how: Advance, answer: Option<ItemId>)
    ensures
        queue.offered(how, answer).current == queue.current,
        queue.offered(how, answer).history == queue.history,
        forall|id: ItemId| queue.has(id) ==> #[trigger] queue.commit(id).current == Some(id),
{
}

/// Edits elsewhere leave the cursor on the entry it is on.
pub proof fn edits_elsewhere_leave_the_cursor(queue: QueueModel, edit: Edit)
    requires
        queue.wf(),
        possible(queue, edit),
        !(edit is Commit),
        !(edit is Clear),
        edit matches Edit::Remove(ids) ==> forall|i: int|
            0 <= i < ids.len() ==> Some(#[trigger] ids[i]) != queue.current,
    ensures
        edited(queue, edit).current == queue.current,
{
    if let Edit::Remove(ids) = edit {
        lemma_removing_others_keeps_the_cursor(queue, ids);
    }
}

proof fn lemma_removing_others_keeps_the_cursor(queue: QueueModel, ids: Seq<ItemId>)
    requires
        forall|i: int| 0 <= i < ids.len() ==> Some(#[trigger] ids[i]) != queue.current,
    ensures
        queue.remove_each(ids).current == queue.current,
    decreases ids.len(),
{
    if ids.len() > 0 {
        let shorter = ids.drop_last();
        assert forall|i: int| 0 <= i < shorter.len() implies Some(#[trigger] shorter[i])
            != queue.current by {
            assert(ids[i] == shorter[i]);
        }
        lemma_removing_others_keeps_the_cursor(queue, shorter);
        assert(ids.last() == ids[ids.len() - 1]);
    }
}

/// Opening the current entry again (a restart, a repeat, a seek that reopens the stream) changes
/// nothing that can be seen, nor the history.
pub proof fn reopening_the_current_entry_changes_nothing(queue: QueueModel, id: ItemId)
    requires
        queue.wf(),
        queue.current == Some(id),
    ensures
        queue.commit(id) == (QueueModel { pending: None, pending_backward: false, ..queue }),
{
    assert(queue.commit(id) =~= QueueModel { pending: None, pending_backward: false, ..queue });
}

/// An entry that is gone cannot be opened, and trying changes nothing.
pub proof fn opening_what_is_gone_changes_nothing(queue: QueueModel, id: ItemId)
    requires
        !queue.has(id),
    ensures
        queue.commit(id) == queue,
{
}

// ---- going through the queue -----------------------------------------------------------------------

/// The queue after the engine played `count` tracks to their ends.
pub open spec fn played_through(queue: QueueModel, count: nat) -> QueueModel
    decreases count,
{
    if count == 0 {
        queue
    } else {
        let before = played_through(queue, (count - 1) as nat);
        match before.offer(Advance::Auto) {
            Offer::Answer(Some(id)) => before.offered(Advance::Auto, Some(id)).commit(id),
            _ => before,
        }
    }
}

/// From the start, a queue that does not repeat plays its entries in the order that it announces,
/// shuffled or not: each exactly once, and then it ends.
pub proof fn a_cycle_plays_every_entry_once_in_order(queue: QueueModel, count: nat)
    requires
        queue.wf(),
        queue.repeat is Off,
        queue.current is None,
        queue.pending is None,
        queue.vacated is None,
        count <= queue.order.len(),
    ensures
        ({
            let after = played_through(queue, count);
            &&& after.wf()
            &&& after.items == queue.items
            &&& after.order == queue.order
            &&& after.repeat is Off
            &&& after.pending is None
            &&& after.vacated is None
            &&& count == 0 ==> after.current is None
            &&& count > 0 ==> after.current == Some(queue.order[count - 1])
            &&& after.offer(Advance::Auto) == Offer::Answer(
                if count < queue.order.len() {
                    Some(queue.order[count as int])
                } else {
                    None
                },
            )
        }),
    decreases count,
{
    let after = played_through(queue, count);
    if count > 0 {
        let before = played_through(queue, (count - 1) as nat);
        a_cycle_plays_every_entry_once_in_order(queue, (count - 1) as nat);
        let id = queue.order[count - 1];
        assert(queue.order.contains(id));
        assert(before.has(id));
        let offered = before.offered(Advance::Auto, Some(id));
        every_edit_keeps_the_invariant(before, Edit::Offer(Advance::Auto));
        assert(offered.ids() == before.ids());
        lemma_commit_keeps_wf(offered, id);
        if count > 1 {
            assert(queue.order[count - 2] != queue.order[count - 1]);
        }
        assert(after.current == Some(id));
        queue.order.index_of_first_ensures(id);
        let at = queue.order.index_of_first(id)->0;
        assert(at == count - 1);
    }
}

/// Repeating everything, an order that is not shuffled starts over with its first entry; one that
/// is shuffled starts a new cycle.
pub proof fn repeating_all_starts_over(queue: QueueModel)
    requires
        queue.wf(),
        queue.repeat is All,
        queue.order.len() > 0,
        queue.base_id() == Some(queue.order.last()),
    ensures
        queue.offer(Advance::Auto) == if queue.shuffle {
            Offer::NewCycle
        } else {
            Offer::Answer(Some(queue.order[0]))
        },
{
    queue.order.index_of_first_ensures(queue.order.last());
    assert(queue.order.contains(queue.order.last()));
    let at = queue.order.index_of_first(queue.order.last())->0;
    assert(at == queue.order.len() - 1);
}

/// An empty queue has nothing for anything.
pub proof fn an_empty_queue_has_nothing(queue: QueueModel, how: Advance)
    requires
        queue.wf(),
        queue.items.len() == 0,
    ensures
        queue.offer(how) == Offer::Answer(None),
{
    if queue.base_id() is Some {
        assert(queue.has(queue.base_id()->0));
    }
    if queue.history.len() > 0 {
        assert(queue.has(queue.history[0]));
    }
}

/// Two skips in a row, before anything is opened, are two entries ahead.
pub proof fn skips_in_a_row_chain(queue: QueueModel, at: int)
    requires
        queue.wf(),
        0 <= at < queue.order.len() - 2,
        queue.base_id() == Some(queue.order[at]),
    ensures
        queue.offer(Advance::Next) == Offer::Answer(Some(queue.order[at + 1])),
        queue.offered(Advance::Next, Some(queue.order[at + 1])).offer(Advance::Next)
            == Offer::Answer(Some(queue.order[at + 2])),
{
    queue.order.index_of_first_ensures(queue.order[at]);
    queue.order.index_of_first_ensures(queue.order[at + 1]);
    assert(queue.order.contains(queue.order[at]));
    assert(queue.order.contains(queue.order[at + 1]));
}

// ---- going back ------------------------------------------------------------------------------------

/// After a jump, `Previous` leads back to what was actually playing before it, and opening that
/// leaves the history as it was, short of an entry that fell out of it.
pub proof fn previous_goes_back_to_what_was_played(queue: QueueModel, from: ItemId, to: ItemId)
    requires
        queue.wf(),
        queue.current == Some(from),
        queue.has(to),
        from != to,
        queue.history.len() == 0 || queue.history.last() != to,
        !(queue.pending == Some(to) && queue.pending_backward),
    ensures
        ({
            let jumped = queue.commit(to);
            let back = jumped.offered(Advance::Previous, Some(from)).commit(from);
            &&& jumped.offer(Advance::Previous) == Offer::Answer(Some(from))
            &&& back.current == Some(from)
            &&& queue.history.len() < HISTORY_LIMIT ==> back.history == queue.history
        }),
{
    let jumped = queue.commit(to);
    let back = jumped.offered(Advance::Previous, Some(from)).commit(from);
    assert(jumped.history.last() == from);
    assert(jumped.ids() == queue.ids());
    assert(jumped.offered(Advance::Previous, Some(from)).ids() == queue.ids());
    if queue.history.len() < HISTORY_LIMIT {
        assert(back.history =~= queue.history);
    }
}

/// Once the history runs out, going back follows the order, entry by entry to the first, and
/// never bounces: a step back leaves no history to return through.
pub proof fn going_back_through_the_order_does_not_bounce(queue: QueueModel, at: int)
    requires
        queue.wf(),
        queue.history.len() == 0,
        queue.pending is None,
        0 <= at < queue.order.len(),
        queue.current == Some(queue.order[at]),
        !(queue.repeat is All),
    ensures
        at == 0 ==> queue.offer(Advance::Previous) == Offer::Answer(None),
        at > 0 ==> {
            let to = queue.order[at - 1];
            let back = queue.offered(Advance::Previous, Some(to)).commit(to);
            &&& queue.offer(Advance::Previous) == Offer::Answer(Some(to))
            &&& back.current == Some(to)
            &&& back.history.len() == 0
            &&& back.order == queue.order
            &&& back.pending is None
        },
{
    queue.order.index_of_first_ensures(queue.order[at]);
    assert(queue.order.contains(queue.order[at]));
    if at > 0 {
        let to = queue.order[at - 1];
        assert(queue.order.contains(to));
        assert(queue.offered(Advance::Previous, Some(to)).ids() == queue.ids());
    }
}

// ---- removing the entry that is playing --------------------------------------------------------------

/// When the playing entry is removed, the one that followed it takes its place: it is next.
pub proof fn the_next_entry_takes_the_place_of_a_removed_one(queue: QueueModel, at: int)
    requires
        queue.wf(),
        0 <= at < queue.order.len(),
        queue.current == Some(queue.order[at]),
        queue.pending is None,
    ensures
        queue.remove_one(queue.order[at]).current is None,
        queue.remove_one(queue.order[at]).forward(false) == Offer::Answer(
            if at + 1 < queue.order.len() {
                Some(queue.order[at + 1])
            } else {
                None
            },
        ),
{
    let id = queue.order[at];
    queue.order.index_of_first_ensures(id);
    assert(queue.order.contains(id));
    let after = queue.remove_one(id);
    if at + 1 < queue.order.len() {
        assert(after.order[at] == queue.order[at + 1]);
    }
}

/// The place that a removed entry left follows the edits around it: removing another entry leaves
/// the one that is next where it is.
pub proof fn the_vacated_place_follows_removals(queue: QueueModel, id: ItemId)
    requires
        queue.wf(),
        queue.base_id() is None,
        queue.vacated matches Some(slot) && slot < queue.order.len() && queue.order[slot as int]
            != id,
    ensures
        queue.remove_one(id).forward(false) == queue.forward(false),
{
    if queue.has(id) {
        let slot = queue.vacated->0 as int;
        queue.order.index_of_first_ensures(id);
        assert(queue.order.contains(id));
        let at = queue.order.index_of_first(id)->0;
        let after = queue.remove_one(id);
        assert(at != slot);
        if at < slot {
            assert(after.order[slot - 1] == queue.order[slot]);
        } else {
            assert(after.order[slot] == queue.order[slot]);
        }
    }
}

/// Nor do entries that are put in elsewhere change what is next; one put in exactly there is next
/// itself.
pub proof fn the_vacated_place_follows_insertions(
    queue: QueueModel,
    items_at: nat,
    order_at: nat,
    tracks: Seq<QueueTrack>,
)
    requires
        queue.wf(),
        queue.base_id() is None,
        queue.vacated matches Some(slot) && slot < queue.order.len(),
        order_at <= queue.order.len(),
        tracks.len() > 0,
    ensures
        ({
            let after = queue.put_in(items_at, order_at, tracks);
            if order_at == queue.vacated->0 {
                after.forward(false) == Offer::Answer(Some(ids_of(queue.new_items(tracks))[0]))
            } else {
                after.forward(false) == queue.forward(false)
            }
        }),
{
    let slot = queue.vacated->0 as int;
    let new = ids_of(queue.new_items(tracks));
    let after = queue.put_in(items_at, order_at, tracks);
    if order_at < slot {
        assert(after.order[slot + tracks.len()] == queue.order[slot]);
    } else if order_at == slot {
        assert(after.order[slot] == new[0]);
    } else {
        assert(after.order[slot] == queue.order[slot]);
    }
}

/// Turning shuffle on and off again gives the queue order back, with the cursor where it was.
pub proof fn shuffle_off_restores_the_order(queue: QueueModel)
    requires
        queue.wf(),
        !queue.shuffle,
    ensures
        queue.set_shuffle(true).set_shuffle(false).order == queue.order,
        queue.set_shuffle(true).set_shuffle(false).current == queue.current,
        queue.set_shuffle(true).set_shuffle(false).items == queue.items,
{
    assert(queue.set_shuffle(true).ids() == queue.ids());
}

/// Whether an edit that shuffles ends as the queue's generator has it.
pub open spec fn drawn(queue: QueueModel, edit: Edit) -> bool {
    match edit {
        Edit::Shuffle(order, rng) => (order, rng) == queue.first_cycle(),
        Edit::NewCycle(_, order, rng) => (order, rng) == queue.next_cycle(),
        _ => true,
    }
}

/// Recording what an entry turned out to be is an edit.
pub proof fn recording_is_an_edit(
    before: QueueModel,
    after: QueueModel,
    id: ItemId,
    title: Option<Seq<char>>,
    duration: Option<Duration>,
)
    requires
        meta_recorded(before, after, id, title, duration),
    ensures
        ({
            let at = before.ids().index_of_first(id)->0;
            let edit = Edit::RecordMeta(id, title, duration, after.items[at]);
            possible(before, edit) && after == edited(before, edit)
        }),
{
}

/// Whether two edits ask for the same, however a shuffle in them ends.
pub open spec fn alike(a: Edit, b: Edit) -> bool {
    match (a, b) {
        (Edit::Shuffle(_, _), Edit::Shuffle(_, _)) => true,
        (Edit::NewCycle(how, _, _), Edit::NewCycle(other, _, _)) => how == other,
        _ => a == b,
    }
}

/// The queue after `edits`, one after the other.
pub open spec fn after_all(queue: QueueModel, edits: Seq<Edit>) -> QueueModel
    decreases edits.len(),
{
    if edits.len() == 0 {
        queue
    } else {
        edited(after_all(queue, edits.drop_last()), edits.last())
    }
}

/// Whether every one of `edits` that shuffles ends as the generator has it by then.
pub open spec fn all_drawn(queue: QueueModel, edits: Seq<Edit>) -> bool
    decreases edits.len(),
{
    edits.len() == 0 || (all_drawn(queue, edits.drop_last()) && drawn(
        after_all(queue, edits.drop_last()),
        edits.last(),
    ))
}

/// Shuffles are reproducible from the seed: two queues made from the same seed, and asked for the
/// same things, shuffle the same way every time, and are the same in the end.
pub proof fn the_same_seed_shuffles_the_same_way(seed: u64, a: Seq<Edit>, b: Seq<Edit>)
    requires
        a.len() == b.len(),
        forall|i: int| 0 <= i < a.len() ==> alike(#[trigger] a[i], b[i]),
        all_drawn(QueueModel::empty(seed), a),
        all_drawn(QueueModel::empty(seed), b),
    ensures
        a == b,
        after_all(QueueModel::empty(seed), a) == after_all(QueueModel::empty(seed), b),
    decreases a.len(),
{
    if a.len() > 0 {
        the_same_seed_shuffles_the_same_way(seed, a.drop_last(), b.drop_last());
        assert(alike(a[a.len() - 1], b[a.len() - 1]));
        assert(a =~= a.drop_last().push(a.last()));
        assert(b =~= b.drop_last().push(b.last()));
    }
}

/// Nothing but a shuffle draws from the generator: what is done between two shuffles does not
/// change what the second one draws.
pub proof fn only_a_shuffle_draws(queue: QueueModel, edit: Edit)
    requires
        !(edit is Shuffle),
        !(edit is NewCycle),
    ensures
        edited(queue, edit).rng == queue.rng,
{
    if let Edit::Remove(ids) = edit {
        lemma_removing_draws_nothing(queue, ids);
    }
}

proof fn lemma_removing_draws_nothing(queue: QueueModel, ids: Seq<ItemId>)
    ensures
        queue.remove_each(ids).rng == queue.rng,
    decreases ids.len(),
{
    if ids.len() > 0 {
        lemma_removing_draws_nothing(queue, ids.drop_last());
    }
}

/// A new cycle holds every entry exactly once, and does not open with the entry that closed the
/// last one, unless it is the only one.
pub proof fn a_new_cycle_is_whole_and_does_not_repeat(queue: QueueModel, order: Seq<ItemId>)
    requires
        queue.wf(),
        queue.new_cycle(order),
    ensures
        order.no_duplicates(),
        order.len() == queue.items.len(),
        forall|id: ItemId| #[trigger] order.contains(id) <==> queue.has(id),
        order.len() >= 2 ==> Some(order[0]) != queue.base_id(),
{
    lemma_reordered(order, queue.order);
    assert forall|id: ItemId| #[trigger] order.contains(id) <==> queue.has(id) by {
        assert(queue.order.contains(id) == queue.has(id));
    }
}

} // verus!
