use crate::error::BlockFactoryError;
use crate::persistence::ledger::{
    lemma_with_block_wf, lemma_with_record_wf, LedgerView, RecordView,
};
use crate::persistence::models::{BlockData, TransactionData, TransactionDataView};
use vstd::prelude::*;

verus! {

/// What a node asks of its store.
pub trait NodePersistency {
    /// What the store holds.
    spec fn ledger(&self) -> LedgerView;

    /// Reads the latest block. Only a chain without a genesis block has none.
    fn read_latest_block_data(&self) -> (latest: Result<BlockData, BlockFactoryError>)
        requires
            self.ledger().wf(),
        ensures
            self.ledger().tip() is None ==> latest == Err::<BlockData, _>(
                BlockFactoryError::MissingGenesis,
            ),
            self.ledger().tip() matches Some(tip) ==> (latest matches Ok(block) && block@ == tip),
    ;

    /// Writes `block_data` at the end of the chain. A block that the chain
    /// does not accept is refused and nothing is written.
    fn store_block_data(&mut self, block_data: BlockData) -> (stored: Result<
        (),
        BlockFactoryError,
    >)
        requires
            old(self).ledger().wf(),
        ensures
            final(self).ledger().wf(),
            old(self).ledger().accepts(block_data@) ==> stored is Ok && final(self).ledger()
                == old(self).ledger().with_block(block_data@),
            !old(self).ledger().accepts(block_data@) ==> stored == Err::<(), _>(
                BlockFactoryError::PersistenceFailure,
            ) && final(self).ledger() == old(self).ledger(),
    ;

    /// Writes `tx_data` for the latest block. Without a genesis block nothing
    /// is written.
    fn store_transaction_data(&mut self, tx_data: TransactionData) -> (stored: Result<
        (),
        BlockFactoryError,
    >)
        requires
            old(self).ledger().wf(),
        ensures
            final(self).ledger().wf(),
            old(self).ledger().tip() is Some ==> stored is Ok && final(self).ledger()
                == old(self).ledger().with_record(tx_data@),
            old(self).ledger().tip() is None ==> stored == Err::<(), _>(
                BlockFactoryError::MissingGenesis,
            ) && final(self).ledger() == old(self).ledger(),
    ;
}

/// A stored transaction and the height of the block that owns it.
#[derive(Debug, PartialEq, Eq)]
pub struct TransactionRow {
    pub data: TransactionData,
    pub block_height: u32,
}

impl View for TransactionRow {
    type V = RecordView;

    open spec fn view(&self) -> RecordView {
        RecordView { data: self.data@, block_height: self.block_height as nat }
    }
}

/// The views of a sequence of stored transactions, in order.
pub open spec fn transaction_data_views(rows: Seq<TransactionData>) -> Seq<TransactionDataView> {
    rows.map_values(|d: TransactionData| d@)
}

/// The store: the chain of blocks and the stored transactions. It only ever
/// grows, and every operation keeps what it holds well-formed.
pub struct Persistence {
    blocks: Vec<BlockData>,
    records: Vec<TransactionRow>,
}

/// What a store with these blocks and rows holds.
pub open spec fn stored_view(blocks: Seq<BlockData>, records: Seq<TransactionRow>) -> LedgerView {
    LedgerView {
        blocks: blocks.map_values(|b: BlockData| b@),
        records: records.map_values(|r: TransactionRow| r@),
    }
}

impl View for Persistence {
    type V = LedgerView;

    closed spec fn view(&self) -> LedgerView {
        stored_view(self.blocks@, self.records@)
    }
}

/// Whether `block` may follow `tip`, or start the chain where there is no
/// tip. The commitment hash of `block` is computed anew for this.
fn follows(block: &BlockData, tip: Option<&BlockData>) -> (accepted: bool)
    ensures
        accepted == match tip {
            None => block@.is_genesis(),
            Some(tip) => block@.extends(tip@),
        },
{
    match tip {
        None => {
            assert(block@.prev_block_hash.len() == 0 <==> block@.prev_block_hash =~= Seq::<
                char,
            >::empty());
            block.height == 1 && block.prev_block_hash.as_str().is_empty() && block.verify()
        },
        Some(tip) => {
            tip.height < u32::MAX && block.height == tip.height + 1 && block.prev_block_hash
                == tip.hash && block.verify()
        },
    }
}

impl Persistence {
    /// An empty store.
    pub fn new() -> (store: Self)
        ensures
            store@ == LedgerView::empty(),
            store@.wf(),
    {
        let store = Persistence { blocks: Vec::new(), records: Vec::new() };
        assert(store@ =~= LedgerView::empty());
        store
    }

    /// Takes up a chain that was stored before. Blocks and rows are checked as
    /// they would have been when they were written: the chain must start with
    /// a genesis block, every later block must extend the one before it, every
    /// hash must be the commitment of its block, and every row must be owned
    /// by a block of the chain, rows of earlier blocks first.
    pub fn restore(blocks: Vec<BlockData>, records: Vec<TransactionRow>) -> (restored: Option<Self>)
        ensures
            stored_view(blocks@, records@).wf() ==> (restored matches Some(store) && store@
                == stored_view(blocks@, records@)),
            !stored_view(blocks@, records@).wf() ==> restored is None,
    {
        let ghost ledger = stored_view(blocks@, records@);
        let n = blocks.len();
        let mut i: usize = 0;
        while i < n
            invariant
                n == blocks.len(),
                i <= n,
                ledger == stored_view(blocks@, records@),
                i > 0 ==> ledger.blocks[0].is_genesis(),
                forall|k: int|
                    0 < k < i ==> (#[trigger] ledger.blocks[k]).extends(ledger.blocks[k - 1]),
            decreases n - i,
        {
            let accepted = if i == 0 {
                follows(&blocks[i], None)
            } else {
                follows(&blocks[i], Some(&blocks[i - 1]))
            };
            if !accepted {
                assert(!ledger.linked()) by {
                    if i > 0 {
                        assert(!ledger.blocks[i as int].extends(ledger.blocks[i - 1]));
                    }
                }
                return None;
            }
            i += 1;
        }
        assert(ledger.linked());
        let m = records.len();
        let mut j: usize = 0;
        while j < m
            invariant
                n == blocks.len(),
                m == records.len(),
                j <= m,
                ledger == stored_view(blocks@, records@),
                forall|k: int| 0 <= k < j ==> 1 <= (#[trigger] ledger.records[k]).block_height <= n,
                forall|k: int, l: int|
                    0 <= k <= l < j ==> (#[trigger] ledger.records[k]).block_height <= (
                    #[trigger] ledger.records[l]).block_height,
            decreases m - j,
        {
            let owner = records[j].block_height;
            let in_chain = 1 <= owner && owner as usize <= n;
            let in_order = j == 0 || records[j - 1].block_height <= owner;
            assert(ledger.records[j as int].block_height == owner);
            if !(in_chain && in_order) {
                assert(!ledger.owned()) by {
                    if in_chain {
                        assert(ledger.records[j - 1].block_height > owner);
                    }
                }
                return None;
            }
            assert forall|k: int, l: int| 0 <= k <= l < j + 1 implies (
            #[trigger] ledger.records[k]).block_height <= (
            #[trigger] ledger.records[l]).block_height by {
                if l == j && k < j {
                    assert(ledger.records[k].block_height <= ledger.records[j - 1].block_height);
                }
            }
            j += 1;
        }
        assert(ledger.owned());
        Some(Persistence { blocks, records })
    }

    /// A copy of the chain, oldest block first.
    pub fn blocks(&self) -> (chain: Vec<BlockData>)
        ensures
            chain@.map_values(|b: BlockData| b@) == self@.blocks,
    {
        let mut chain: Vec<BlockData> = Vec::new();
        let n = self.blocks.len();
        let mut i: usize = 0;
        while i < n
            invariant
                n == self.blocks.len(),
                i <= n,
                chain.len() == i,
                forall|k: int| 0 <= k < i ==> chain[k]@ == self.blocks[k]@,
            decreases n - i,
        {
            chain.push(self.blocks[i].clone());
            i += 1;
        }
        assert(chain@.map_values(|b: BlockData| b@) =~= self@.blocks);
        chain
    }

    /// A copy of the block at `height`, if the chain is that high. Heights
    /// count from one.
    pub fn block_at(&self, height: u32) -> (found: Option<BlockData>)
        ensures
            1 <= height <= self@.blocks.len() ==> (found matches Some(block) && block@
                == self@.blocks[height - 1]),
            !(1 <= height <= self@.blocks.len()) ==> found is None,
    {
        if 1 <= height && height as usize <= self.blocks.len() {
            Some(self.blocks[(height - 1) as usize].clone())
        } else {
            None
        }
    }

    /// Copies of the rows owned by the block at `height`, in the order in
    /// which they were written.
    pub fn transactions_of(&self, height: u32) -> (rows: Vec<TransactionData>)
        ensures
            transaction_data_views(rows@) == self@.rows_of(height as nat),
    {
        let ghost owned = |r: RecordView| r.block_height == height as nat;
        let ghost data = |r: RecordView| r.data;
        let ghost stored = self@.records;
        let mut rows: Vec<TransactionData> = Vec::new();
        let n = self.records.len();
        let mut i: usize = 0;
        assert(stored.take(0).filter(owned) =~= Seq::<RecordView>::empty()) by {
            reveal(Seq::filter);
        }
        while i < n
            invariant
                n == self.records.len(),
                i <= n,
                stored == self@.records,
                owned == |r: RecordView| r.block_height == height as nat,
                data == |r: RecordView| r.data,
                transaction_data_views(rows@) == stored.take(i as int).filter(owned).map_values(
                    data,
                ),
            decreases n - i,
        {
            let ghost before = transaction_data_views(rows@);
            assert(stored.take(i + 1).drop_last() =~= stored.take(i as int));
            assert(stored.take(i + 1).last() == self.records[i as int]@);
            assert(stored.take(i + 1).filter(owned) == if owned(self.records[i as int]@) {
                stored.take(i as int).filter(owned).push(self.records[i as int]@)
            } else {
                stored.take(i as int).filter(owned)
            }) by {
                reveal(Seq::filter);
            }
            if self.records[i].block_height == height {
                rows.push(self.records[i].data.clone());
                assert(transaction_data_views(rows@) =~= before.push(self.records[i as int]@.data));
                assert(stored.take(i + 1).filter(owned).map_values(data) =~= before.push(
                    self.records[i as int]@.data,
                ));
            }
            i += 1;
        }
        assert(stored.take(n as int) =~= stored);
        rows
    }

    /// The number of blocks in the chain, which is the height of its tip.
    pub fn height(&self) -> (height: u32)
        requires
            self@.wf(),
        ensures
            height == self@.blocks.len(),
    {
        let n = self.blocks.len();
        if n == 0 {
            0
        } else {
            proof {
                crate::persistence::ledger::lemma_height_is_position(self@, n - 1);
            }
            self.blocks[n - 1].height
        }
    }
}

impl Persistence {
    /// Writes a block and its transactions as one unit. A block that the chain
    /// does not accept is refused, and then nothing is written.
    pub fn append(&mut self, block_data: BlockData, rows: Vec<TransactionData>) -> (stored: Result<
        (),
        BlockFactoryError,
    >)
        requires
            old(self)@.wf(),
        ensures
            final(self)@.wf(),
            old(self)@.accepts(block_data@) ==> stored is Ok && final(self)@ == old(self)@
                .with_block(block_data@).with_records(transaction_data_views(rows@)),
            !old(self)@.accepts(block_data@) ==> stored == Err::<(), _>(
                BlockFactoryError::PersistenceFailure,
            ) && final(self)@ == old(self)@,
    {
        match self.store_block_data(block_data) {
            Err(e) => Err(e),
            Ok(()) => {
                let ghost base = self@;
                let ghost views = transaction_data_views(rows@);
                assert(base.with_records(views.take(0)) =~= base);
                for row in iter: rows
                    invariant
                        base.wf(),
                        base.blocks.len() > 0,
                        self@.wf(),
                        views == transaction_data_views(iter.seq()),
                        self@ == base.with_records(views.take(iter.index() as int)),
                {
                    let ghost i = iter.index() as int;
                    assert(views[i] == row@);
                    let stored = self.store_transaction_data(row);
                    assert(base.with_records(views.take(i)).with_record(views[i])
                        =~= base.with_records(views.take(i + 1))) by {
                        assert(views.take(i + 1) =~= views.take(i).push(views[i]));
                    }
                }
                assert(views.take(views.len() as int) =~= views);
                Ok(())
            },
        }
    }
}

impl NodePersistency for Persistence {
    open spec fn ledger(&self) -> LedgerView {
        self@
    }

    fn read_latest_block_data(&self) -> (latest: Result<BlockData, BlockFactoryError>) {
        let n = self.blocks.len();
        if n == 0 {
            Err(BlockFactoryError::MissingGenesis)
        } else {
            Ok(self.blocks[n - 1].clone())
        }
    }

    fn store_block_data(&mut self, block_data: BlockData) -> (stored: Result<
        (),
        BlockFactoryError,
    >) {
        let n = self.blocks.len();
        let accepted = if n == 0 {
            follows(&block_data, None)
        } else {
            follows(&block_data, Some(&self.blocks[n - 1]))
        };
        if accepted {
            proof {
                lemma_with_block_wf(self@, block_data@);
            }
            let ghost before = self@;
            self.blocks.push(block_data);
            assert(self@ =~= before.with_block(block_data@));
            Ok(())
        } else {
            Err(BlockFactoryError::PersistenceFailure)
        }
    }

    fn store_transaction_data(&mut self, tx_data: TransactionData) -> (stored: Result<
        (),
        BlockFactoryError,
    >) {
        let block_height = self.height();
        if block_height == 0 {
            Err(BlockFactoryError::MissingGenesis)
        } else {
            proof {
                lemma_with_record_wf(self@, tx_data@);
            }
            let ghost before = self@;
            self.records.push(TransactionRow { data: tx_data, block_height });
            assert(self@ =~= before.with_record(tx_data@));
            Ok(())
        }
    }
}

} // verus!
