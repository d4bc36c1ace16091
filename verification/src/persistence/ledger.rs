use crate::blockchain::TransactionView;
use crate::error::BlockFactoryError;
use crate::persistence::models::{BlockDataView, TransactionDataView};
use vstd::prelude::*;
use vstd::utf8::valid_utf8;

verus! {

/// The nonce of a block is drawn below this limit.
pub const NONCE_LIMIT: u32 = 100;

/// A stored transaction together with the height of the block that owns it.
pub struct RecordView {
    pub data: TransactionDataView,
    pub block_height: nat,
}

/// The two relations of the store: the chain of blocks, oldest first, and the
/// stored transactions in the order in which they were written.
#[verifier::ext_equal]
pub struct LedgerView {
    pub blocks: Seq<BlockDataView>,
    pub records: Seq<RecordView>,
}

impl LedgerView {
    /// The store before anything was written.
    pub open spec fn empty() -> LedgerView {
        LedgerView { blocks: Seq::empty(), records: Seq::empty() }
    }

    /// The latest block, if there is one.
    pub open spec fn tip(self) -> Option<BlockDataView> {
        if self.blocks.len() == 0 {
            None
        } else {
            Some(self.blocks.last())
        }
    }

    /// `block` may follow what is stored: a genesis block on an empty chain,
    /// else a block that extends the tip.
    pub open spec fn accepts(self, block: BlockDataView) -> bool {
        match self.tip() {
            None => block.is_genesis(),
            Some(tip) => block.extends(tip),
        }
    }

    /// The store after `block` was written.
    pub open spec fn with_block(self, block: BlockDataView) -> LedgerView {
        LedgerView { blocks: self.blocks.push(block), records: self.records }
    }

    /// The store after `data` was written for the latest block.
    pub open spec fn with_record(self, data: TransactionDataView) -> LedgerView {
        LedgerView {
            blocks: self.blocks,
            records: self.records.push(RecordView { data, block_height: self.blocks.len() }),
        }
    }

    /// The store after `rows` were written for the latest block, in order.
    pub open spec fn with_records(self, rows: Seq<TransactionDataView>) -> LedgerView {
        LedgerView {
            blocks: self.blocks,
            records: self.records + rows.map_values(
                |data: TransactionDataView| RecordView { data, block_height: self.blocks.len() },
            ),
        }
    }

    /// The chain starts with a genesis block and every later block extends
    /// the one before it.
    pub open spec fn linked(self) -> bool {
        &&& self.blocks.len() > 0 ==> self.blocks[0].is_genesis()
        &&& forall|i: int|
            0 < i < self.blocks.len() ==> (#[trigger] self.blocks[i]).extends(self.blocks[i - 1])
    }

    /// Every stored transaction is owned by a block of the chain, and the
    /// transactions of an earlier block stand before those of a later one.
    pub open spec fn owned(self) -> bool {
        &&& forall|j: int|
            0 <= j < self.records.len() ==> 1 <= (#[trigger] self.records[j]).block_height
                <= self.blocks.len()
        &&& forall|j: int, k: int|
            0 <= j <= k < self.records.len() ==> (#[trigger] self.records[j]).block_height <= (
            #[trigger] self.records[k]).block_height
    }

    /// What holds of every store.
    pub open spec fn wf(self) -> bool {
        self.linked() && self.owned()
    }

    /// The stored transactions as they were submitted, in the order in which
    /// they were written.
    pub open spec fn transactions(self) -> Seq<TransactionView> {
        self.records.map_values(|r: RecordView| r.data.transaction())
    }

    /// The rows owned by the block at `height`, in order.
    pub open spec fn rows_of(self, height: nat) -> Seq<TransactionDataView> {
        self.records.filter(|r: RecordView| r.block_height == height).map_values(
            |r: RecordView| r.data,
        )
    }

    /// The transactions owned by the blocks up to `height`, block after block.
    pub open spec fn batches_up_to(self, height: nat) -> Seq<TransactionView>
        decreases height,
    {
        if height == 0 {
            Seq::empty()
        } else {
            self.batches_up_to((height - 1) as nat) + self.batch(height)
        }
    }

    /// The transactions owned by the block at `height`, in order.
    pub open spec fn batch(self, height: nat) -> Seq<TransactionView> {
        self.records.filter(|r: RecordView| r.block_height == height).map_values(
            |r: RecordView| r.data.transaction(),
        )
    }
}

/// Every instruction of the batch is valid UTF-8.
pub open spec fn encodable(batch: Seq<TransactionView>) -> bool {
    forall|i: int| 0 <= i < batch.len() ==> valid_utf8((#[trigger] batch[i]).instruction)
}

/// `rows` store the transactions of `batch`, one row each and in order, every
/// row under an identifier of 36 characters.
pub open spec fn rows_store(rows: Seq<TransactionDataView>, batch: Seq<TransactionView>) -> bool {
    &&& rows.len() == batch.len()
    &&& forall|i: int|
        0 <= i < rows.len() ==> (#[trigger] rows[i]) == TransactionDataView::of(
            rows[i].id,
            batch[i],
        ) && rows[i].id.len() == 36
}

/// Why a store that holds `ledger` takes no block for `batch`, if it takes
/// none: the genesis block is missing, the chain has no room for another
/// block, or an instruction of the batch is not valid UTF-8.
pub open spec fn refusal(ledger: LedgerView, batch: Seq<TransactionView>) -> Option<
    BlockFactoryError,
> {
    if ledger.blocks.len() == 0 {
        Some(BlockFactoryError::MissingGenesis)
    } else if ledger.blocks.len() >= u32::MAX {
        Some(BlockFactoryError::PersistenceFailure)
    } else if !encodable(batch) {
        Some(BlockFactoryError::EncodingFailure)
    } else {
        None
    }
}

/// The rows that `post` holds beyond those of `pre`.
pub open spec fn new_rows(pre: LedgerView, post: LedgerView) -> Seq<TransactionDataView> {
    post.records.skip(pre.records.len() as int).map_values(|r: RecordView| r.data)
}

/// `post` is `pre` and one genesis block more, with a nonce below
/// [`NONCE_LIMIT`] and an identifier of 36 characters.
pub open spec fn stores_genesis(pre: LedgerView, post: LedgerView) -> bool {
    let block = post.blocks.last();
    &&& pre.blocks.len() == 0
    &&& post == pre.with_block(block)
    &&& block == BlockDataView::genesis(block.id, block.nonce)
    &&& block.nonce < NONCE_LIMIT
    &&& block.id.len() == 36
}

/// `post` is `pre` and one unit more: a block that extends the tip of `pre`,
/// with a nonce below [`NONCE_LIMIT`] and an identifier of 36 characters, and
/// after it the rows that store `batch`, all owned by that block.
pub open spec fn stores_batch(
    pre: LedgerView,
    post: LedgerView,
    batch: Seq<TransactionView>,
) -> bool {
    let block = post.blocks.last();
    let rows = new_rows(pre, post);
    &&& pre.blocks.len() > 0
    &&& post == pre.with_block(block).with_records(rows)
    &&& block == BlockDataView::successor(pre.blocks.last(), block.id, block.nonce)
    &&& block.nonce < NONCE_LIMIT
    &&& block.id.len() == 36
    &&& rows_store(rows, batch)
}

/// The store after a unit was written holds the rows of that unit beyond
/// those it held before.
pub proof fn lemma_new_rows(pre: LedgerView, block: BlockDataView, rows: Seq<TransactionDataView>)
    ensures
        new_rows(pre, pre.with_block(block).with_records(rows)) == rows,
        pre.with_block(block).with_records(rows).blocks.last() == block,
{
    let post = pre.with_block(block).with_records(rows);
    assert(new_rows(pre, post) =~= rows);
}

/// Writing an accepted block keeps the store well-formed.
pub proof fn lemma_with_block_wf(ledger: LedgerView, block: BlockDataView)
    requires
        ledger.wf(),
        ledger.accepts(block),
    ensures
        ledger.with_block(block).wf(),
{
    let after = ledger.with_block(block);
    assert forall|i: int| 0 < i < after.blocks.len() implies (#[trigger] after.blocks[i]).extends(
        after.blocks[i - 1],
    ) by {
        if i < ledger.blocks.len() {
            assert(ledger.blocks[i].extends(ledger.blocks[i - 1]));
        }
    }
}

/// Writing a transaction for the latest block keeps the store well-formed.
pub proof fn lemma_with_record_wf(ledger: LedgerView, data: TransactionDataView)
    requires
        ledger.wf(),
        ledger.blocks.len() > 0,
    ensures
        ledger.with_record(data).wf(),
{
    let after = ledger.with_record(data);
    assert forall|j: int| 0 <= j < after.records.len() implies 1 <= (
    #[trigger] after.records[j]).block_height <= after.blocks.len() by {
        if j < ledger.records.len() {
            assert(after.records[j] == ledger.records[j]);
        }
    }
    assert forall|j: int, k: int| 0 <= j <= k < after.records.len() implies (
    #[trigger] after.records[j]).block_height <= (#[trigger] after.records[k]).block_height by {
        if k < ledger.records.len() {
            assert(after.records[j] == ledger.records[j]);
            assert(after.records[k] == ledger.records[k]);
        } else if j < ledger.records.len() {
            assert(after.records[j] == ledger.records[j]);
        }
    }
}

/// Writing transactions for the latest block keeps the store well-formed.
pub proof fn lemma_with_records_wf(ledger: LedgerView, rows: Seq<TransactionDataView>)
    requires
        ledger.wf(),
        ledger.blocks.len() > 0,
    ensures
        ledger.with_records(rows).wf(),
        rows.len() == 0 ==> ledger.with_records(rows) == ledger,
    decreases rows.len(),
{
    if rows.len() == 0 {
        assert(ledger.with_records(rows) =~= ledger);
    } else {
        let front = rows.drop_last();
        lemma_with_records_wf(ledger, front);
        lemma_with_record_wf(ledger.with_records(front), rows.last());
        assert(ledger.with_records(front).with_record(rows.last()) =~= ledger.with_records(rows));
    }
}

/// In a well-formed store the block at position `i`, counted from zero, has
/// height `i + 1`.
pub proof fn lemma_height_is_position(ledger: LedgerView, i: int)
    requires
        ledger.linked(),
        0 <= i < ledger.blocks.len(),
    ensures
        ledger.blocks[i].height == i + 1,
    decreases i,
{
    if i > 0 {
        lemma_height_is_position(ledger, i - 1);
        assert(ledger.blocks[i].extends(ledger.blocks[i - 1]));
    }
}

/// The rows owned by a block up to `height`.
spec fn owned_up_to(records: Seq<RecordView>, height: nat) -> Seq<RecordView> {
    records.filter(|r: RecordView| r.block_height <= height)
}

/// The rows owned by the block at `height`.
spec fn owned_at(records: Seq<RecordView>, height: nat) -> Seq<RecordView> {
    records.filter(|r: RecordView| r.block_height == height)
}

/// Rows of earlier blocks stand before those of later ones.
spec fn in_block_order(records: Seq<RecordView>) -> bool {
    forall|j: int, k: int|
        0 <= j <= k < records.len() ==> (#[trigger] records[j]).block_height <= (
        #[trigger] records[k]).block_height
}

/// In block order, the rows owned up to a height are those owned below it
/// followed by those owned at it.
proof fn lemma_owned_up_to_splits(records: Seq<RecordView>, height: nat)
    requires
        in_block_order(records),
        height >= 1,
    ensures
        owned_up_to(records, height) == owned_up_to(records, (height - 1) as nat) + owned_at(
            records,
            height,
        ),
    decreases records.len(),
{
    reveal(Seq::filter);
    let below = (height - 1) as nat;
    if records.len() == 0 {
        assert(owned_up_to(records, height) =~= owned_up_to(records, below) + owned_at(
            records,
            height,
        ));
    } else {
        let front = records.drop_last();
        let last = records.last();
        assert(in_block_order(front)) by {
            assert forall|j: int, k: int| 0 <= j <= k < front.len() implies (
            #[trigger] front[j]).block_height <= (#[trigger] front[k]).block_height by {
                assert(records[j].block_height <= records[k].block_height);
            }
        }
        lemma_owned_up_to_splits(front, height);
        if last.block_height < height {
            assert forall|j: int| 0 <= j < front.len() implies (#[trigger] front[j]).block_height
                < height by {
                assert(records[j].block_height <= records[records.len() - 1].block_height);
            }
            lemma_none_kept(front, |r: RecordView| r.block_height == height);
            assert(owned_up_to(records, height) =~= owned_up_to(records, below) + owned_at(
                records,
                height,
            ));
        } else {
            assert(owned_up_to(records, height) =~= owned_up_to(records, below) + owned_at(
                records,
                height,
            ));
        }
    }
}

/// The transactions of the blocks up to `height` are those of the rows owned
/// up to `height`.
proof fn lemma_batches_are_owned_rows(ledger: LedgerView, height: nat)
    requires
        ledger.wf(),
    ensures
        ledger.batches_up_to(height) == owned_up_to(ledger.records, height).map_values(
            |r: RecordView| r.data.transaction(),
        ),
    decreases height,
{
    let to_transaction = |r: RecordView| r.data.transaction();
    if height == 0 {
        assert forall|j: int| 0 <= j < ledger.records.len() implies (
        #[trigger] ledger.records[j]).block_height >= 1 by {}
        assert(owned_up_to(ledger.records, 0) =~= Seq::<RecordView>::empty()) by {
            lemma_none_kept(ledger.records, |r: RecordView| r.block_height <= 0);
        }
        assert(ledger.batches_up_to(0) =~= owned_up_to(ledger.records, 0).map_values(
            to_transaction,
        ));
    } else {
        let below = (height - 1) as nat;
        lemma_batches_are_owned_rows(ledger, below);
        lemma_owned_up_to_splits(ledger.records, height);
        assert(ledger.batch(height) == owned_at(ledger.records, height).map_values(to_transaction));
        assert(ledger.batches_up_to(height) =~= owned_up_to(ledger.records, height).map_values(
            to_transaction,
        ));
    }
}

/// A filter keeps nothing of a sequence whose elements all fail it.
pub proof fn lemma_none_kept<A>(s: Seq<A>, pred: spec_fn(A) -> bool)
    requires
        forall|i: int| 0 <= i < s.len() ==> !pred(#[trigger] s[i]),
    ensures
        s.filter(pred) == Seq::<A>::empty(),
    decreases s.len(),
{
    reveal(Seq::filter);
    if s.len() > 0 {
        lemma_none_kept(s.drop_last(), pred);
    }
}

/// A filter keeps a sequence whose elements all pass it.
pub proof fn lemma_all_kept<A>(s: Seq<A>, pred: spec_fn(A) -> bool)
    requires
        forall|i: int| 0 <= i < s.len() ==> pred(#[trigger] s[i]),
    ensures
        s.filter(pred) == s,
    decreases s.len(),
{
    reveal(Seq::filter);
    if s.len() > 0 {
        lemma_all_kept(s.drop_last(), pred);
        assert(s.drop_last().push(s.last()) =~= s);
    }
}

/// Every stored transaction is in exactly one batch: the batches of the
/// blocks, taken block after block, are the stored transactions, each once and
/// in the order in which they were written.
pub proof fn batches_partition_the_records(ledger: LedgerView)
    requires
        ledger.wf(),
    ensures
        ledger.batches_up_to(ledger.blocks.len()) == ledger.transactions(),
{
    lemma_batches_are_owned_rows(ledger, ledger.blocks.len());
    lemma_all_kept(ledger.records, |r: RecordView| r.block_height <= ledger.blocks.len());
}

/// The chain has no gap and no fork: counted from one, the block at position
/// `h` has height `h`; the first block names no block before it; every later
/// block names the hash of the block before it; and the hash of every block
/// is the commitment of its other fields.
pub proof fn chain_is_linked(ledger: LedgerView)
    requires
        ledger.wf(),
    ensures
        ledger.blocks.len() > 0 ==> ledger.blocks[0].height == 1 && ledger.blocks[0].prev_block_hash
            == Seq::<char>::empty(),
        forall|i: int|
            0 <= i < ledger.blocks.len() ==> (#[trigger] ledger.blocks[i]).height == i + 1,
        forall|i: int|
            1 <= i < ledger.blocks.len() ==> (#[trigger] ledger.blocks[i]).prev_block_hash
                == ledger.blocks[i - 1].hash,
        forall|i: int| 0 <= i < ledger.blocks.len() ==> (#[trigger] ledger.blocks[i]).sealed(),
{
    assert forall|i: int| 0 <= i < ledger.blocks.len() implies (#[trigger] ledger.blocks[i]).height
        == i + 1 by {
        lemma_height_is_position(ledger, i);
    }
    assert forall|i: int| 0 <= i < ledger.blocks.len() implies (
    #[trigger] ledger.blocks[i]).sealed() by {
        if i > 0 {
            assert(ledger.blocks[i].extends(ledger.blocks[i - 1]));
        }
    }
}

} // verus!
