//! What playing a shuffled queue over and over comes to.

use super::laws;
use super::model::{Offer, QueueModel};
use super::ItemId;
use crate::engine::supplier::Advance;
use rand::rngs::StdRng;
use vstd::prelude::*;

verus! {

/// Whether `after` is a queue that `before` can become when a track ends: it was asked what follows,
/// answered `id`, and `id` was opened. A new cycle is played in `order`, and leaves `rng` of the
/// generator.
pub open spec fn plays_on(
    before: QueueModel,
    id: ItemId,
    after: QueueModel,
    order: Seq<ItemId>,
    rng: StdRng,
) -> bool {
    match before.offer(Advance::Auto) {
        Offer::Answer(answer) => answer == Some(id) && after == before.offered(
            Advance::Auto,
            answer,
        ).commit(id),
        Offer::NewCycle => {
            &&& before.new_cycle(order)
            &&& id == order[0]
            &&& after == before.cycled(Advance::Auto, order, rng).commit(id)
        },
    }
}

/// A queue that was played for a while: the queue before and after each track, what was played, and
/// what each new cycle was shuffled to (of tracks that began none, that is left open).
pub struct Played {
    /// The queue before the first track, and after each.
    pub queues: Seq<QueueModel>,
    /// What was played.
    pub ids: Seq<ItemId>,
    /// The order of the cycle that a track began.
    pub orders: Seq<Seq<ItemId>>,
    /// What was left of the generator then.
    pub rngs: Seq<StdRng>,
}

impl Played {
    /// Whether each track was what the queue had for when the one before it ends.
    pub open spec fn in_turn(self) -> bool {
        &&& self.queues.len() == self.ids.len() + 1
        &&& self.orders.len() == self.ids.len()
        &&& self.rngs.len() == self.ids.len()
        &&& forall|t: int|
            0 <= t < self.ids.len() ==> plays_on(
                #[trigger] self.queues[t],
                self.ids[t],
                self.queues[t + 1],
                self.orders[t],
                self.rngs[t],
            )
    }

    /// Whether the queue at first is shuffled, repeats everything, and has yet to play anything.
    pub open spec fn starts_fresh(self) -> bool {
        &&& self.queues[0].wf()
        &&& self.queues[0].shuffle
        &&& self.queues[0].repeat is All
        &&& self.queues[0].base_id() is None
        &&& self.queues[0].vacated is None
        &&& self.queues[0].items.len() > 0
    }

    /// What was played in the `k`-th cycle.
    pub open spec fn cycle(self, k: int) -> Seq<ItemId> {
        let n = self.queues[0].items.len() as int;
        self.ids.subrange(k * n, (k + 1) * n)
    }
}

/// Where a queue stands after `t` tracks: at the last one played, in an order that begins with what
/// was played of this cycle.
spec fn stands(played: Played, t: int, p: int) -> bool {
    let first = played.queues[0];
    let queue = played.queues[t];
    let n = first.items.len() as int;
    &&& queue.wf()
    &&& queue.shuffle
    &&& queue.repeat is All
    &&& queue.items == first.items
    &&& queue.pending is None
    &&& queue.vacated is None
    &&& 0 <= p < n
    &&& p < t
    &&& queue.current == Some(played.ids[t - 1])
    &&& forall|j: int| 0 <= j <= p ==> #[trigger] queue.order[j] == played.ids[t - 1 - p + j]
}

proof fn lemma_index_of(row: Seq<ItemId>, at: int)
    requires
        row.no_duplicates(),
        0 <= at < row.len(),
    ensures
        row.index_of_first(row[at]) == Some(at),
{
    row.index_of_first_ensures(row[at]);
}

/// The first track is the first of the order.
proof fn lemma_first(played: Played)
    requires
        played.in_turn(),
        played.starts_fresh(),
        played.ids.len() > 0,
    ensures
        stands(played, 1, 0),
        played.ids[0] == played.queues[0].order[0],
{
    let queue = played.queues[0];
    let id = played.ids[0];
    assert(plays_on(queue, id, played.queues[1], played.orders[0], played.rngs[0]));
    assert(queue.order.contains(queue.order[0]));
    lemma_opened(queue, queue.offered(Advance::Auto, Some(id)), id);
}

/// Opening what was offered keeps the queue together, and what is played as it is.
proof fn lemma_opened(queue: QueueModel, offered: QueueModel, id: ItemId)
    requires
        queue.wf(),
        queue.shuffle,
        offered.wf() || offered == queue.offered(Advance::Auto, Some(id)),
        offered.items == queue.items,
        queue.has(id),
    ensures
        offered.commit(id).wf(),
        offered.commit(id).items == queue.items,
        offered.commit(id).order == offered.order,
        offered.commit(id).shuffle == offered.shuffle,
        offered.commit(id).repeat == offered.repeat,
        offered.commit(id).current == Some(id),
        offered.commit(id).pending is None,
        offered.commit(id).vacated is None,
{
    assert(offered.ids() == queue.ids());
    laws::lemma_commit_keeps_wf(offered, id);
}

/// The next track is the next of the order, or the first of a new one.
proof fn lemma_next(played: Played, t: int, p: int)
    requires
        played.in_turn(),
        played.starts_fresh(),
        0 < t < played.ids.len(),
        stands(played, t, p),
    ensures
        stands(
            played,
            t + 1,
            if p + 1 < played.queues[0].items.len() {
                p + 1
            } else {
                0
            },
        ),
        played.queues[0].items.len() >= 2 ==> played.ids[t] != played.ids[t - 1],
{
    let queue = played.queues[t];
    let after = played.queues[t + 1];
    let n = played.queues[0].items.len() as int;
    let id = played.ids[t];
    assert(plays_on(queue, id, after, played.orders[t], played.rngs[t]));
    assert(queue.order[p] == played.ids[t - 1]);
    lemma_index_of(queue.order, p);
    assert(queue.next_slot() == p + 1);
    if p + 1 < n {
        assert(queue.offer(Advance::Auto) == Offer::Answer(Some(queue.order[p + 1])));
        assert(queue.order.contains(queue.order[p + 1]));
        lemma_opened(queue, queue.offered(Advance::Auto, Some(id)), id);
        assert forall|j: int| 0 <= j <= p + 1 implies #[trigger] after.order[j] == played.ids[t - (p
            + 1) + j] by {
            if j <= p {
                assert(queue.order[j] == played.ids[t - 1 - p + j]);
            }
        }
    } else {
        let order = played.orders[t];
        assert(queue.offer(Advance::Auto) is NewCycle);
        laws::a_new_cycle_is_whole_and_does_not_repeat(queue, order);
        assert(order.contains(order[0]));
        laws::every_edit_keeps_the_invariant(
            queue,
            laws::Edit::NewCycle(Advance::Auto, order, played.rngs[t]),
        );
        lemma_opened(queue, queue.cycled(Advance::Auto, order, played.rngs[t]), id);
    }
}

proof fn lemma_stands(played: Played, t: int)
    requires
        played.in_turn(),
        played.starts_fresh(),
        0 < t <= played.ids.len(),
    ensures
        stands(played, t, (t - 1) % played.queues[0].items.len() as int),
        played.queues[0].items.len() >= 2 && t >= 2 ==> played.ids[t - 1] != played.ids[t - 2],
    decreases t,
{
    let n = played.queues[0].items.len() as int;
    if t == 1 {
        lemma_first(played);
        vstd::arithmetic::div_mod::lemma_small_mod(0, n as nat);
    } else {
        lemma_stands(played, t - 1);
        let p = (t - 2) % n;
        lemma_next(played, t - 1, p);
        vstd::arithmetic::div_mod::lemma_fundamental_div_mod(t - 2, n);
        let q = (t - 2) / n;
        if p + 1 < n {
            vstd::arithmetic::div_mod::lemma_fundamental_div_mod_converse(t - 1, n, q, p + 1);
        } else {
            assert(n * q + n == n * (q + 1)) by (nonlinear_arith);
            vstd::arithmetic::div_mod::lemma_fundamental_div_mod_converse(t - 1, n, q + 1, 0);
        }
    }
}

/// Repeating everything and shuffled, however long it plays, the queue plays every entry exactly
/// once in each cycle; and with two entries or more it never plays one twice in a row, not even from
/// one cycle to the next.
pub proof fn every_shuffled_cycle_is_whole_and_nothing_repeats(played: Played, cycles: nat)
    requires
        played.in_turn(),
        played.starts_fresh(),
        played.ids.len() == cycles * played.queues[0].items.len(),
    ensures
        forall|k: int|
            0 <= k < cycles ==> (#[trigger] played.cycle(k)).len() == played.queues[0].items.len()
                && played.cycle(k).no_duplicates(),
        forall|k: int, id: ItemId|
            0 <= k < cycles ==> (#[trigger] played.cycle(k).contains(id) <==> played.queues[0].has(
                id,
            )),
        played.queues[0].items.len() >= 2 ==> forall|t: int|
            0 < t < played.ids.len() ==> #[trigger] played.ids[t] != played.ids[t - 1],
{
    let n = played.queues[0].items.len() as int;
    assert forall|k: int| 0 <= k < cycles implies #[trigger] played.cycle(k)
        == played.queues[(k + 1) * n].order && played.cycle(k).len() == n
        && played.queues[(k + 1) * n].wf() && played.queues[(k + 1) * n].items
        == played.queues[0].items by {
        let t = (k + 1) * n;
        assert(0 <= k * n && k * n + n == t && t <= cycles * n) by (nonlinear_arith)
            requires
                0 <= k < cycles,
                n > 0,
                t == (k + 1) * n,
        ;
        lemma_stands(played, t);
        assert((t - 1) % n == n - 1) by {
            assert(t - 1 == n * k + (n - 1)) by (nonlinear_arith)
                requires
                    k * n + n == t,
            ;
            vstd::arithmetic::div_mod::lemma_fundamental_div_mod_converse(t - 1, n, k, n - 1);
        }
        let order = played.queues[t].order;
        assert forall|j: int| 0 <= j < n implies #[trigger] played.cycle(k)[j] == order[j] by {
            assert(order[j] == played.ids[t - 1 - (n - 1) + j]);
        }
        assert(played.cycle(k) =~= order);
    }
    assert forall|k: int, id: ItemId| 0 <= k < cycles implies (#[trigger] played.cycle(k).contains(
        id,
    ) <==> played.queues[0].has(id)) by {
        let queue = played.queues[(k + 1) * n];
        assert(played.cycle(k) == queue.order);
        assert(queue.order.contains(id) <==> queue.has(id));
    }
    if n >= 2 {
        assert forall|t: int| 0 < t < played.ids.len() implies #[trigger] played.ids[t]
            != played.ids[t - 1] by {
            lemma_stands(played, t + 1);
        }
    }
}

/// There is always a next track: the queue never runs out.
pub proof fn a_repeated_queue_always_goes_on(queue: QueueModel)
    requires
        queue.wf(),
        queue.repeat is All,
        queue.items.len() > 0,
    ensures
        queue.offer(Advance::Auto) matches Offer::Answer(answer) ==> answer is Some,
{
}

} // verus!
