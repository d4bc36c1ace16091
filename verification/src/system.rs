//! The pool and the store taken together, over any run of submissions and
//! epoch ends.

use crate::blockchain::TransactionView;
use crate::persistence::ledger::{
    batches_partition_the_records, lemma_all_kept, lemma_none_kept, lemma_with_block_wf,
    lemma_with_records_wf, new_rows, refusal, stores_batch, LedgerView, RecordView,
};
use crate::persistence::models::TransactionDataView;
use vstd::prelude::*;

verus! {

/// What waits in the pool and what the store holds.
pub struct SystemView {
    pub pool: Seq<TransactionView>,
    pub ledger: LedgerView,
}

/// What happens to the system from outside.
pub enum Event {
    /// A transaction is submitted.
    Submit(TransactionView),
    /// An epoch ends.
    Tick,
}

/// One step of the system, as `Chain::submit` and `Node::tick` make it.
/// A submission joins the end of the pool. The end of an epoch empties the
/// pool; a pool that held something is written as one unit, unless the store
/// refuses it, and then the store stays as it was.
pub open spec fn step(pre: SystemView, event: Event, post: SystemView) -> bool {
    match event {
        Event::Submit(tx) => post.pool == pre.pool.push(tx) && post.ledger == pre.ledger,
        Event::Tick => {
            &&& post.pool == Seq::<TransactionView>::empty()
            &&& if pre.pool.len() == 0 || refusal(pre.ledger, pre.pool) is Some {
                post.ledger == pre.ledger
            } else {
                stores_batch(pre.ledger, post.ledger, pre.pool)
            }
        },
    }
}

/// The end of an epoch loses its batch: the pool held something and the
/// store refused it.
pub open spec fn loses_batch(pre: SystemView, event: Event) -> bool {
    event is Tick && pre.pool.len() > 0 && refusal(pre.ledger, pre.pool) is Some
}

/// `states` is a run of the system under `events`: one state before each
/// event and one after the last, each step made by its event.
pub open spec fn run(states: Seq<SystemView>, events: Seq<Event>) -> bool {
    &&& states.len() == events.len() + 1
    &&& forall|i: int|
        0 <= i < events.len() ==> step(#[trigger] states[i], events[i], states[i + 1])
}

/// The transactions that `events` submit, in order.
pub open spec fn submitted(events: Seq<Event>) -> Seq<TransactionView>
    decreases events.len(),
{
    if events.len() == 0 {
        Seq::empty()
    } else {
        match events.last() {
            Event::Submit(tx) => submitted(events.drop_last()).push(tx),
            Event::Tick => submitted(events.drop_last()),
        }
    }
}

/// What a unit that stores a batch leaves in the store, row by row: the rows
/// of before, and after them one row for each transaction of the batch, owned
/// by the new block.
proof fn lemma_rows_of_a_stored_batch(
    pre: LedgerView,
    post: LedgerView,
    batch: Seq<TransactionView>,
)
    requires
        stores_batch(pre, post, batch),
    ensures
        post.blocks == pre.blocks.push(post.blocks.last()),
        post.records.len() == pre.records.len() + batch.len(),
        forall|i: int| 0 <= i < pre.records.len() ==> post.records[i] == pre.records[i],
        forall|i: int|
            0 <= i < batch.len() ==> (#[trigger] post.records[pre.records.len() + i]).block_height
                == post.blocks.len() && post.records[pre.records.len() + i].data.transaction()
                == batch[i],
{
    let block = post.blocks.last();
    let rows = new_rows(pre, post);
    let written = pre.with_block(block).with_records(rows);
    assert(post == written);
    assert(written.blocks == pre.blocks.push(block));
    assert(written.records.len() == pre.records.len() + rows.len());
    assert forall|i: int| 0 <= i < batch.len() implies (
    #[trigger] post.records[pre.records.len() + i]).block_height == post.blocks.len()
        && post.records[pre.records.len() + i].data.transaction() == batch[i] by {
        assert(written.records[pre.records.len() + i].data == rows[i]);
        assert(rows[i] == TransactionDataView::of(rows[i].id, batch[i]));
    }
}

/// A unit that stores a batch keeps the store well-formed, adds the
/// transactions of the batch, in order, to the stored ones, and makes them the
/// batch of the new block.
pub proof fn lemma_batch_is_stored(pre: LedgerView, post: LedgerView, batch: Seq<TransactionView>)
    requires
        pre.wf(),
        stores_batch(pre, post, batch),
    ensures
        post.wf(),
        post.transactions() == pre.transactions() + batch,
        post.batch(post.blocks.len()) == batch,
{
    lemma_rows_of_a_stored_batch(pre, post, batch);
    assert(post.wf()) by {
        let block = post.blocks.last();
        lemma_with_block_wf(pre, block);
        lemma_with_records_wf(pre.with_block(block), new_rows(pre, post));
    }
    assert(post.transactions() =~= pre.transactions() + batch);
    assert(post.batch(post.blocks.len()) == batch) by {
        let height = post.blocks.len();
        let owned = |r: RecordView| r.block_height == height;
        let fresh = post.records.skip(pre.records.len() as int);
        assert(post.records =~= pre.records + fresh);
        assert(pre.records.filter(owned) =~= Seq::<RecordView>::empty()) by {
            lemma_none_kept(pre.records, owned);
        }
        assert(fresh.filter(owned) =~= fresh) by {
            assert forall|i: int| 0 <= i < fresh.len() implies owned(#[trigger] fresh[i]) by {
                assert(fresh[i] == post.records[pre.records.len() + i]);
            }
            lemma_all_kept(fresh, owned);
        }
        Seq::filter_distributes_over_add(pre.records, fresh, owned);
        assert(post.records.filter(owned) =~= fresh);
        assert(fresh.map_values(|r: RecordView| r.data.transaction()) =~= batch) by {
            assert forall|i: int| 0 <= i < fresh.len() implies (
            #[trigger] fresh[i]).data.transaction() == batch[i] by {
                assert(fresh[i] == post.records[pre.records.len() + i]);
            }
        }
    }
}

/// The transactions that the store holds, batch after batch, followed by
/// those that wait in the pool.
pub open spec fn kept(system: SystemView) -> Seq<TransactionView> {
    system.ledger.batches_up_to(system.ledger.blocks.len()) + system.pool
}

/// No loss and no duplication: over a run in which no end of an epoch loses
/// its batch, every transaction that was submitted is, at the end, in exactly
/// one batch of the store or still in the pool. The batches of the store,
/// block after block, followed by the pool are what they were at the start
/// followed by the submitted transactions, each once and in order.
pub proof fn every_submission_is_kept_once(states: Seq<SystemView>, events: Seq<Event>)
    requires
        run(states, events),
        states[0].ledger.wf(),
        forall|i: int| 0 <= i < events.len() ==> !loses_batch(#[trigger] states[i], events[i]),
    ensures
        states.last().ledger.wf(),
        kept(states.last()) == kept(states[0]) + submitted(events),
{
    lemma_stored_and_waiting(states, events);
    batches_partition_the_records(states[0].ledger);
    batches_partition_the_records(states.last().ledger);
}

/// Over a run in which no end of an epoch loses its batch, the stored
/// transactions followed by the pool are, at the end, what they were at the
/// start followed by the submitted transactions.
proof fn lemma_stored_and_waiting(states: Seq<SystemView>, events: Seq<Event>)
    requires
        run(states, events),
        states[0].ledger.wf(),
        forall|i: int| 0 <= i < events.len() ==> !loses_batch(#[trigger] states[i], events[i]),
    ensures
        states.last().ledger.wf(),
        states.last().ledger.transactions() + states.last().pool == states[0].ledger.transactions()
            + states[0].pool + submitted(events),
    decreases events.len(),
{
    if events.len() == 0 {
        assert(states.last() == states[0]);
        assert(states[0].ledger.transactions() + states[0].pool + submitted(events)
            =~= states[0].ledger.transactions() + states[0].pool);
    } else {
        let n = events.len() as int;
        let before = states.drop_last();
        let earlier = events.drop_last();
        assert(run(before, earlier)) by {
            assert forall|i: int| 0 <= i < earlier.len() implies step(
                #[trigger] before[i],
                earlier[i],
                before[i + 1],
            ) by {
                assert(step(states[i], events[i], states[i + 1]));
            }
        }
        assert forall|i: int| 0 <= i < earlier.len() implies !loses_batch(
            #[trigger] before[i],
            earlier[i],
        ) by {
            assert(!loses_batch(states[i], events[i]));
        }
        lemma_stored_and_waiting(before, earlier);
        let pre = states[n - 1];
        let post = states[n];
        assert(before.last() == pre);
        assert(states.last() == post);
        assert(step(pre, events[n - 1], post));
        assert(!loses_batch(pre, events[n - 1]));
        let start = states[0].ledger.transactions() + states[0].pool;
        match events.last() {
            Event::Submit(tx) => {
                assert(post.ledger.transactions() + post.pool =~= (pre.ledger.transactions()
                    + pre.pool).push(tx));
                assert(start + submitted(events) =~= (start + submitted(earlier)).push(tx));
            },
            Event::Tick => {
                if pre.pool.len() > 0 {
                    lemma_batch_is_stored(pre.ledger, post.ledger, pre.pool);
                }
                assert(post.ledger.transactions() + post.pool =~= pre.ledger.transactions()
                    + pre.pool);
            },
        }
    }
}

/// `later` holds what `earlier` holds, unchanged, and maybe more after it.
pub open spec fn grown_from(later: LedgerView, earlier: LedgerView) -> bool {
    &&& earlier.blocks.len() <= later.blocks.len()
    &&& later.blocks.take(earlier.blocks.len() as int) == earlier.blocks
    &&& earlier.records.len() <= later.records.len()
    &&& later.records.take(earlier.records.len() as int) == earlier.records
}

/// One step keeps the store well-formed and takes nothing from it.
pub proof fn a_step_only_appends(pre: SystemView, event: Event, post: SystemView)
    requires
        pre.ledger.wf(),
        step(pre, event, post),
    ensures
        post.ledger.wf(),
        grown_from(post.ledger, pre.ledger),
{
    assert(pre.ledger.blocks.take(pre.ledger.blocks.len() as int) =~= pre.ledger.blocks);
    assert(pre.ledger.records.take(pre.ledger.records.len() as int) =~= pre.ledger.records);
    if event is Tick && pre.pool.len() > 0 && refusal(pre.ledger, pre.pool) is None {
        lemma_batch_is_stored(pre.ledger, post.ledger, pre.pool);
        assert(post.ledger.blocks.take(pre.ledger.blocks.len() as int) =~= pre.ledger.blocks);
        assert(post.ledger.records.take(pre.ledger.records.len() as int) =~= pre.ledger.records);
    }
}

/// What has grown from a store that has grown from another has grown from
/// that other.
proof fn lemma_grown_from_grown(last: LedgerView, middle: LedgerView, first: LedgerView)
    requires
        grown_from(last, middle),
        grown_from(middle, first),
    ensures
        grown_from(last, first),
{
    assert(last.blocks.take(first.blocks.len() as int) =~= middle.blocks.take(
        first.blocks.len() as int,
    ));
    assert(last.records.take(first.records.len() as int) =~= middle.records.take(
        first.records.len() as int,
    ));
}

/// The store is append-only: at every point of a run it is well-formed, and
/// what it holds at a point `i` it still holds, unchanged, at every later
/// point `j`.
pub proof fn a_run_only_appends(states: Seq<SystemView>, events: Seq<Event>, i: int, j: int)
    requires
        run(states, events),
        states[0].ledger.wf(),
        0 <= i <= j < states.len(),
    ensures
        states[i].ledger.wf(),
        states[j].ledger.wf(),
        grown_from(states[j].ledger, states[i].ledger),
    decreases j,
{
    if j == 0 {
        let only = states[0].ledger;
        assert(only.blocks.take(only.blocks.len() as int) =~= only.blocks);
        assert(only.records.take(only.records.len() as int) =~= only.records);
    } else {
        let pre = states[j - 1];
        let post = states[j];
        assert(step(pre, events[j - 1], post));
        if i == j {
            a_run_only_appends(states, events, j - 1, j - 1);
            a_step_only_appends(pre, events[j - 1], post);
            assert(post.ledger.blocks.take(post.ledger.blocks.len() as int) =~= post.ledger.blocks);
            assert(post.ledger.records.take(post.ledger.records.len() as int)
                =~= post.ledger.records);
        } else {
            a_run_only_appends(states, events, i, j - 1);
            a_step_only_appends(pre, events[j - 1], post);
            lemma_grown_from_grown(post.ledger, pre.ledger, states[i].ledger);
        }
    }
}

/// Ending an epoch on an empty pool changes nothing: the store and the pool
/// are afterwards what they were, so the next epoch starts from the same
/// state.
pub proof fn empty_epoch_changes_nothing(pre: SystemView, post: SystemView)
    requires
        pre.pool.len() == 0,
        step(pre, Event::Tick, post),
    ensures
        post.ledger == pre.ledger,
        post.pool == pre.pool,
{
    assert(post.pool =~= pre.pool);
}

} // verus!
