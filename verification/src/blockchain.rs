use crate::error::BlockFactoryError;
use crate::persistence::ledger::{
    encodable, lemma_height_is_position, lemma_new_rows, refusal, rows_store, stores_batch,
    stores_genesis, LedgerView, NONCE_LIMIT,
};
use crate::persistence::models::{BlockData, BlockDataView, TransactionData, TransactionDataView};
use crate::persistence::port::{transaction_data_views, NodePersistency, Persistence};
use crate::system::{step, Event, SystemView};
use crate::utils::{fresh_identifier, get_random_nonce};
use vstd::prelude::*;
use vstd::utf8::valid_utf8;

verus! {

/// A transfer instruction handed in by a submitter.
#[derive(Debug, PartialEq, Eq)]
pub struct Transaction {
    pub from: String,
    pub to: String,
    pub instruction: Vec<u8>,
}

/// What a [`Transaction`] holds, as plain sequences.
pub struct TransactionView {
    pub from: Seq<char>,
    pub to: Seq<char>,
    pub instruction: Seq<u8>,
}

impl View for Transaction {
    type V = TransactionView;

    open spec fn view(&self) -> TransactionView {
        TransactionView { from: self.from@, to: self.to@, instruction: self.instruction@ }
    }
}

impl Clone for Transaction {
    fn clone(&self) -> (copy: Self)
        ensures
            copy@ == self@,
    {
        let instruction = vstd::slice::slice_to_vec(self.instruction.as_slice());
        Transaction { from: self.from.clone(), to: self.to.clone(), instruction }
    }
}

/// The views of a sequence of transactions, in order.
pub open spec fn transaction_views(transactions: Seq<Transaction>) -> Seq<TransactionView> {
    transactions.map_values(|t: Transaction| t@)
}

/// The transactions sealed together at the end of one epoch.
#[derive(Debug)]
pub struct Block {
    pub transactions: Vec<Transaction>,
}

impl View for Block {
    type V = Seq<TransactionView>;

    open spec fn view(&self) -> Seq<TransactionView> {
        transaction_views(self.transactions@)
    }
}

impl Block {
    /// Wraps the drained transactions, keeping their order.
    pub fn from(tx_pool: Vec<Transaction>) -> (block: Self)
        ensures
            block.transactions == tx_pool,
            block@ == transaction_views(tx_pool@),
    {
        Self { transactions: tx_pool }
    }
}

/// The pool of transactions accepted since the last block was sealed.
///
/// The pool is reached only through its methods. One that changes it takes
/// it by `&mut`, so a drain is one step: no transaction is handed out twice,
/// and none that comes later is lost in it.
pub struct Chain {
    tx_pool: Vec<Transaction>,
}

impl View for Chain {
    type V = Seq<TransactionView>;

    closed spec fn view(&self) -> Seq<TransactionView> {
        transaction_views(self.tx_pool@)
    }
}

impl Chain {
    /// An empty pool.
    pub fn new() -> (chain: Self)
        ensures
            chain@ == Seq::<TransactionView>::empty(),
    {
        let chain = Self { tx_pool: Vec::new() };
        assert(chain@ =~= Seq::<TransactionView>::empty());
        chain
    }

    /// Puts `tx` at the end of the pool.
    pub fn submit(&mut self, tx: Transaction)
        ensures
            final(self)@ == old(self)@.push(tx@),
    {
        self.tx_pool.push(tx);
        assert(self@ =~= old(self)@.push(tx@));
    }

    /// The number of transactions that wait in the pool.
    pub fn peek_count(&self) -> (count: usize)
        ensures
            count == self@.len(),
    {
        self.tx_pool.len()
    }

    /// A copy of what waits in the pool, which stays as it is.
    pub fn snapshot_pool(&self) -> (snapshot: Vec<Transaction>)
        ensures
            transaction_views(snapshot@) == self@,
    {
        let mut snapshot: Vec<Transaction> = Vec::new();
        let n = self.tx_pool.len();
        let mut i: usize = 0;
        while i < n
            invariant
                n == self.tx_pool.len(),
                i <= n,
                snapshot.len() == i,
                forall|j: int| 0 <= j < i ==> snapshot[j]@ == self.tx_pool[j]@,
            decreases n - i,
        {
            snapshot.push(self.tx_pool[i].clone());
            i += 1;
        }
        assert(transaction_views(snapshot@) =~= self@);
        snapshot
    }

    /// Hands out everything that waits in the pool, in order, and leaves the
    /// pool empty.
    pub fn drain_and_clear(&mut self) -> (drained: Vec<Transaction>)
        ensures
            transaction_views(drained@) == old(self)@,
            final(self)@ == Seq::<TransactionView>::empty(),
    {
        let mut drained: Vec<Transaction> = Vec::new();
        std::mem::swap(&mut self.tx_pool, &mut drained);
        assert(self@ =~= Seq::<TransactionView>::empty());
        drained
    }

    /// Builds a block from the pool and empties the pool, in one step. An
    /// empty pool gives no block; otherwise the block holds the whole pool, in
    /// order. Never fails.
    pub fn create_block_from_pool(&mut self) -> (built: Result<Option<Block>, BlockFactoryError>)
        ensures
            old(self)@.len() == 0 ==> built == Ok::<Option<Block>, BlockFactoryError>(None),
            old(self)@.len() > 0 ==> (built matches Ok(Some(block)) && block@ == old(self)@),
            final(self)@ == Seq::<TransactionView>::empty(),
    {
        if self.tx_pool.len() == 0 {
            assert(self@ =~= Seq::<TransactionView>::empty());
            Ok(None)
        } else {
            Ok(Some(Block::from(self.drain_and_clear())))
        }
    }

    /// Empties the pool.
    pub fn clear_pool(&mut self) -> (cleared: Result<(), BlockFactoryError>)
        ensures
            cleared is Ok,
            final(self)@ == Seq::<TransactionView>::empty(),
    {
        self.tx_pool.clear();
        assert(self@ =~= Seq::<TransactionView>::empty());
        Ok(())
    }

    /// Seals what waits in the pool into a block. An empty pool gives no
    /// block; otherwise the block holds the whole pool, in order, and the pool
    /// is left empty.
    pub fn seal(&mut self) -> (sealed: Option<Block>)
        ensures
            old(self)@.len() == 0 ==> sealed is None,
            old(self)@.len() > 0 ==> (sealed matches Some(block) && block@ == old(self)@),
            final(self)@ == Seq::<TransactionView>::empty(),
    {
        match self.create_block_from_pool() {
            Ok(sealed) => sealed,
            Err(_) => None,
        }
    }
}

/// The node: it owns the store and writes the chain.
pub struct Node {
    persistence: Persistence,
}

impl View for Node {
    type V = LedgerView;

    closed spec fn view(&self) -> LedgerView {
        self.persistence@
    }
}

impl Node {
    /// A node over an empty store.
    pub fn new() -> (node: Self)
        ensures
            node@ == LedgerView::empty(),
            node@.wf(),
    {
        Self { persistence: Persistence::new() }
    }

    /// A node over a store that already holds a chain.
    pub fn with_persistence(persistence: Persistence) -> (node: Self)
        ensures
            node@ == persistence@,
    {
        Self { persistence }
    }

    /// The store of this node.
    pub fn persistence(&self) -> (store: &Persistence)
        ensures
            store@ == self@,
    {
        &self.persistence
    }

    /// Builds the genesis block for a chain whose latest block is `tip`, with
    /// a fresh identifier and nonce. A chain that has a latest block gets
    /// none.
    pub fn prepare_genesis(tip: Option<&BlockData>) -> (built: Result<BlockData, BlockFactoryError>)
        ensures
            tip is Some ==> built == Err::<BlockData, _>(BlockFactoryError::AlreadyInitialized),
            tip is None ==> (built matches Ok(block) && block@ == BlockDataView::genesis(
                block@.id,
                block@.nonce,
            ) && block@.nonce < NONCE_LIMIT && block@.id.len() == 36),
    {
        match tip {
            Some(_) => Err(BlockFactoryError::AlreadyInitialized),
            None => {
                let id = fresh_identifier();
                let nonce = get_random_nonce(NONCE_LIMIT);
                Ok(BlockData::genesis(id, nonce))
            },
        }
    }

    /// Builds what is written for `block` on a chain whose latest block is
    /// `tip`: the block that follows `tip`, with a fresh identifier and nonce,
    /// and one row for each transaction. Nothing is built when the chain has
    /// no latest block, when the height of `tip` is the largest a height can
    /// be, or when an instruction is not valid UTF-8.
    pub fn prepare_block(tip: Option<&BlockData>, block: Block) -> (unit: Result<
        (BlockData, Vec<TransactionData>),
        BlockFactoryError,
    >)
        ensures
            tip is None ==> unit == Err::<(BlockData, Vec<TransactionData>), _>(
                BlockFactoryError::MissingGenesis,
            ),
            tip matches Some(tip) ==> {
                &&& tip.height == u32::MAX ==> unit == Err::<(BlockData, Vec<TransactionData>), _>(
                    BlockFactoryError::PersistenceFailure,
                )
                &&& tip.height < u32::MAX && !encodable(block@) ==> unit == Err::<
                    (BlockData, Vec<TransactionData>),
                    _,
                >(BlockFactoryError::EncodingFailure)
                &&& tip.height < u32::MAX && encodable(block@) ==> (unit matches Ok(built)
                    && built.0@ == BlockDataView::successor(tip@, built.0@.id, built.0@.nonce)
                    && built.0@.nonce < NONCE_LIMIT && built.0@.id.len() == 36 && rows_store(
                    transaction_data_views(built.1@),
                    block@,
                ))
            },
    {
        let latest = match tip {
            Some(latest) => latest,
            None => {
                return Err(BlockFactoryError::MissingGenesis);
            },
        };
        let id = fresh_identifier();
        let nonce = get_random_nonce(NONCE_LIMIT);
        let block_data = match BlockData::successor(latest, id, nonce) {
            Some(block_data) => block_data,
            None => {
                return Err(BlockFactoryError::PersistenceFailure);
            },
        };
        let ghost batch = block@;
        let mut rows: Vec<TransactionData> = Vec::new();
        for tx in iter: block.transactions
            invariant
                tip == Some(latest),
                latest.height < u32::MAX,
                batch == block@,
                batch == transaction_views(iter.seq()),
                rows.len() == iter.index(),
                forall|j: int|
                    0 <= j < iter.index() ==> valid_utf8((#[trigger] batch[j]).instruction),
                forall|j: int|
                    0 <= j < rows.len() ==> (#[trigger] rows[j])@ == TransactionDataView::of(
                        rows[j]@.id,
                        batch[j],
                    ) && rows[j]@.id.len() == 36,
        {
            assert(batch[iter.index() as int] == tx@);
            match TransactionData::try_from(tx) {
                Ok(row) => {
                    rows.push(row);
                },
                Err(e) => {
                    return Err(e);
                },
            }
        }
        assert(rows_store(transaction_data_views(rows@), batch));
        Ok((block_data, rows))
    }

    /// Creates the genesis block. A chain that already holds a block is left
    /// as it is.
    pub fn store_genesis_block(&mut self) -> (stored: Result<(), BlockFactoryError>)
        requires
            old(self)@.wf(),
        ensures
            final(self)@.wf(),
            old(self)@.blocks.len() > 0 ==> stored == Err::<(), _>(
                BlockFactoryError::AlreadyInitialized,
            ) && final(self)@ == old(self)@,
            old(self)@.blocks.len() == 0 ==> stored is Ok && stores_genesis(
                old(self)@,
                final(self)@,
            ),
    {
        let built = match self.persistence.read_latest_block_data() {
            Ok(tip) => Self::prepare_genesis(Some(&tip)),
            Err(_) => Self::prepare_genesis(None),
        };
        match built {
            Ok(block_data) => {
                assert(self@.accepts(block_data@));
                self.persistence.store_block_data(block_data)
            },
            Err(e) => Err(e),
        }
    }

    /// Seals `block` onto the chain: the block that follows the tip and one
    /// row for each transaction are written as one unit, or nothing is.
    pub fn store_block(&mut self, block: Block) -> (stored: Result<(), BlockFactoryError>)
        requires
            old(self)@.wf(),
        ensures
            final(self)@.wf(),
            refusal(old(self)@, block@) matches Some(e) ==> stored == Err::<(), _>(e)
                && final(self)@ == old(self)@,
            refusal(old(self)@, block@) is None ==> stored is Ok && stores_batch(
                old(self)@,
                final(self)@,
                block@,
            ),
    {
        let built = match self.persistence.read_latest_block_data() {
            Ok(tip) => {
                proof {
                    lemma_height_is_position(self@, self@.blocks.len() - 1);
                }
                Self::prepare_block(Some(&tip), block)
            },
            Err(_) => Self::prepare_block(None, block),
        };
        let (block_data, rows) = match built {
            Ok(unit) => unit,
            Err(e) => {
                return Err(e);
            },
        };
        proof {
            lemma_new_rows(self@, block_data@, transaction_data_views(rows@));
        }
        self.persistence.append(block_data, rows)
    }

    /// Ends an epoch: seals what waits in the pool and stores it. An empty
    /// pool makes no block. The pool is drained before anything is written, so
    /// a batch that is refused is lost.
    pub fn tick(&mut self, chain: &mut Chain) -> (sealed: Result<bool, BlockFactoryError>)
        requires
            old(self)@.wf(),
        ensures
            final(self)@.wf(),
            final(chain)@ == Seq::<TransactionView>::empty(),
            old(chain)@.len() == 0 ==> sealed == Ok::<bool, BlockFactoryError>(false)
                && final(self)@ == old(self)@,
            old(chain)@.len() > 0 ==> (refusal(old(self)@, old(chain)@) matches Some(e) ==> sealed
                == Err::<bool, _>(e) && final(self)@ == old(self)@),
            old(chain)@.len() > 0 && refusal(old(self)@, old(chain)@) is None ==> sealed == Ok::<
                bool,
                BlockFactoryError,
            >(true) && stores_batch(old(self)@, final(self)@, old(chain)@),
            step(
                (SystemView { pool: old(chain)@, ledger: old(self)@ }),
                Event::Tick,
                (SystemView { pool: final(chain)@, ledger: final(self)@ }),
            ),
    {
        match chain.seal() {
            None => Ok(false),
            Some(block) => match self.store_block(block) {
                Ok(()) => Ok(true),
                Err(e) => Err(e),
            },
        }
    }
}

} // verus!
