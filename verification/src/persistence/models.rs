use crate::blockchain::{Transaction, TransactionView};
use crate::decimal::{decimal_text, lemma_numeral_field_injective, numeral_field};
use crate::digest::{sha256_digest, sha256_hex};
use crate::error::BlockFactoryError;
use crate::utils::fresh_identifier;
use vstd::prelude::*;
use vstd::string::{StrSliceExecFns, StringExecFns, StringSliceAdditionalSpecFns};
use vstd::utf8::{decode_utf8, valid_utf8};

verus! {

/// The text that is hashed for a block. Every field can be read back from
/// it: the length of the identifier, a colon, the identifier, the nonce, a
/// colon, the height, a colon, and the hash of the block before. Numbers are
/// written as decimal numerals.
pub open spec fn commitment_preimage(
    id: Seq<char>,
    nonce: nat,
    height: nat,
    prev_block_hash: Seq<char>,
) -> Seq<char> {
    numeral_field(id.len(), id + numeral_field(nonce, numeral_field(height, prev_block_hash)))
}

/// The commitment hash of a block with these fields.
pub open spec fn commitment(
    id: Seq<char>,
    nonce: nat,
    height: nat,
    prev_block_hash: Seq<char>,
) -> Seq<char> {
    sha256_hex(commitment_preimage(id, nonce, height, prev_block_hash))
}

/// The text that is hashed for a stored transaction: identifier, sender,
/// receiver and the instruction read as UTF-8.
pub open spec fn content_preimage(
    id: Seq<char>,
    from: Seq<char>,
    to: Seq<char>,
    instruction: Seq<u8>,
) -> Seq<char> {
    id + from + to + decode_utf8(instruction)
}

/// The content hash of a stored transaction with these fields.
pub open spec fn content_hash(
    id: Seq<char>,
    from: Seq<char>,
    to: Seq<char>,
    instruction: Seq<u8>,
) -> Seq<char> {
    sha256_hex(content_preimage(id, from, to, instruction))
}

/// Equal fields give equal commitment hashes.
pub proof fn commitment_is_deterministic(
    id: Seq<char>,
    nonce: nat,
    height: nat,
    prev_block_hash: Seq<char>,
    other_id: Seq<char>,
    other_nonce: nat,
    other_height: nat,
    other_prev_block_hash: Seq<char>,
)
    requires
        id == other_id,
        nonce == other_nonce,
        height == other_height,
        prev_block_hash == other_prev_block_hash,
    ensures
        commitment(id, nonce, height, prev_block_hash) == commitment(
            other_id,
            other_nonce,
            other_height,
            other_prev_block_hash,
        ),
{
}

/// Distinct blocks never share a hashed text: two texts that are equal come
/// from the same identifier, nonce, height and hash of the block before. Two
/// commitment hashes of different fields are then equal only where SHA-256
/// collides.
pub proof fn equal_preimages_have_equal_fields(
    id: Seq<char>,
    nonce: nat,
    height: nat,
    prev_block_hash: Seq<char>,
    other_id: Seq<char>,
    other_nonce: nat,
    other_height: nat,
    other_prev_block_hash: Seq<char>,
)
    requires
        commitment_preimage(id, nonce, height, prev_block_hash) == commitment_preimage(
            other_id,
            other_nonce,
            other_height,
            other_prev_block_hash,
        ),
    ensures
        id == other_id,
        nonce == other_nonce,
        height == other_height,
        prev_block_hash == other_prev_block_hash,
{
    let tail = numeral_field(nonce, numeral_field(height, prev_block_hash));
    let other_tail = numeral_field(other_nonce, numeral_field(other_height, other_prev_block_hash));
    lemma_numeral_field_injective(id.len(), id + tail, other_id.len(), other_id + other_tail);
    assert(id =~= (id + tail).take(id.len() as int));
    assert(other_id =~= (other_id + other_tail).take(other_id.len() as int));
    assert(tail =~= (id + tail).skip(id.len() as int));
    assert(other_tail =~= (other_id + other_tail).skip(other_id.len() as int));
    lemma_numeral_field_injective(
        nonce,
        numeral_field(height, prev_block_hash),
        other_nonce,
        numeral_field(other_height, other_prev_block_hash),
    );
    lemma_numeral_field_injective(height, prev_block_hash, other_height, other_prev_block_hash);
}

/// A transaction as it is stored.
#[derive(Debug, PartialEq, Eq)]
pub struct TransactionData {
    pub id: String,
    pub hash: String,
    pub from: String,
    pub to: String,
    pub instruction: Vec<u8>,
}

/// What a [`TransactionData`] holds, as plain sequences.
pub struct TransactionDataView {
    pub id: Seq<char>,
    pub hash: Seq<char>,
    pub from: Seq<char>,
    pub to: Seq<char>,
    pub instruction: Seq<u8>,
}

impl TransactionDataView {
    /// The submitted transaction that this row stores.
    pub open spec fn transaction(self) -> TransactionView {
        TransactionView { from: self.from, to: self.to, instruction: self.instruction }
    }

    /// The row that stores `tx` under the identifier `id`.
    pub open spec fn of(id: Seq<char>, tx: TransactionView) -> TransactionDataView {
        TransactionDataView {
            id,
            hash: content_hash(id, tx.from, tx.to, tx.instruction),
            from: tx.from,
            to: tx.to,
            instruction: tx.instruction,
        }
    }
}

impl View for TransactionData {
    type V = TransactionDataView;

    open spec fn view(&self) -> TransactionDataView {
        TransactionDataView {
            id: self.id@,
            hash: self.hash@,
            from: self.from@,
            to: self.to@,
            instruction: self.instruction@,
        }
    }
}

impl Clone for TransactionData {
    fn clone(&self) -> (copy: Self)
        ensures
            copy@ == self@,
    {
        TransactionData {
            id: self.id.clone(),
            hash: self.hash.clone(),
            from: self.from.clone(),
            to: self.to.clone(),
            instruction: vstd::slice::slice_to_vec(self.instruction.as_slice()),
        }
    }
}

impl TransactionData {
    /// Stores `tx` under the identifier `id`. A transaction whose instruction
    /// is not valid UTF-8 has no content hash and is refused.
    pub fn with_id(id: String, tx: Transaction) -> (row: Result<Self, BlockFactoryError>)
        ensures
            valid_utf8(tx.instruction@) ==> (row matches Ok(data) && data@
                == TransactionDataView::of(id@, tx@)),
            !valid_utf8(tx.instruction@) ==> row == Err::<Self, _>(
                BlockFactoryError::EncodingFailure,
            ),
    {
        let mut preimage = id.clone();
        preimage.append(tx.from.as_str());
        preimage.append(tx.to.as_str());
        match std::str::from_utf8(tx.instruction.as_slice()) {
            Ok(text) => {
                proof {
                    vstd::utf8::encode_utf8_decode_utf8(text@);
                }
                preimage.append(text);
            },
            Err(_) => {
                return Err(BlockFactoryError::EncodingFailure);
            },
        }
        let hash = sha256_digest(preimage.as_str());
        Ok(TransactionData { id, hash, from: tx.from, to: tx.to, instruction: tx.instruction })
    }

    /// Stores `tx` under a fresh identifier.
    pub fn try_from(tx: Transaction) -> (row: Result<Self, BlockFactoryError>)
        ensures
            valid_utf8(tx.instruction@) ==> (row matches Ok(data) && data@
                == TransactionDataView::of(data@.id, tx@) && data@.id.len() == 36),
            !valid_utf8(tx.instruction@) ==> row == Err::<Self, _>(
                BlockFactoryError::EncodingFailure,
            ),
    {
        let id = fresh_identifier();
        Self::with_id(id, tx)
    }
}

/// A block as it is stored: one link of the chain.
#[derive(Debug, PartialEq, Eq)]
pub struct BlockData {
    pub id: String,
    pub hash: String,
    pub nonce: u32,
    pub height: u32,
    pub prev_block_hash: String,
}

/// What a [`BlockData`] holds, as plain values.
pub struct BlockDataView {
    pub id: Seq<char>,
    pub hash: Seq<char>,
    pub nonce: nat,
    pub height: nat,
    pub prev_block_hash: Seq<char>,
}

impl BlockDataView {
    /// The hash is the commitment of the other four fields.
    pub open spec fn sealed(self) -> bool {
        self.hash == commitment(self.id, self.nonce, self.height, self.prev_block_hash)
    }

    /// A sealed block at height 1 that names no block before it.
    pub open spec fn is_genesis(self) -> bool {
        &&& self.sealed()
        &&& self.height == 1
        &&& self.prev_block_hash == Seq::<char>::empty()
    }

    /// A sealed block one higher than `tip` that names the hash of `tip`.
    pub open spec fn extends(self, tip: BlockDataView) -> bool {
        &&& self.sealed()
        &&& self.height == tip.height + 1
        &&& self.prev_block_hash == tip.hash
    }

    /// The genesis block with this identifier and nonce.
    pub open spec fn genesis(id: Seq<char>, nonce: nat) -> BlockDataView {
        BlockDataView {
            id,
            hash: commitment(id, nonce, 1, Seq::<char>::empty()),
            nonce,
            height: 1,
            prev_block_hash: Seq::<char>::empty(),
        }
    }

    /// The block with this identifier and nonce that follows `tip`.
    pub open spec fn successor(tip: BlockDataView, id: Seq<char>, nonce: nat) -> BlockDataView {
        BlockDataView {
            id,
            hash: commitment(id, nonce, tip.height + 1, tip.hash),
            nonce,
            height: tip.height + 1,
            prev_block_hash: tip.hash,
        }
    }
}

impl View for BlockData {
    type V = BlockDataView;

    open spec fn view(&self) -> BlockDataView {
        BlockDataView {
            id: self.id@,
            hash: self.hash@,
            nonce: self.nonce as nat,
            height: self.height as nat,
            prev_block_hash: self.prev_block_hash@,
        }
    }
}

impl Clone for BlockData {
    fn clone(&self) -> (copy: Self)
        ensures
            copy@ == self@,
    {
        BlockData {
            id: self.id.clone(),
            hash: self.hash.clone(),
            nonce: self.nonce,
            height: self.height,
            prev_block_hash: self.prev_block_hash.clone(),
        }
    }
}

impl BlockData {
    /// Computes the commitment hash of a block from its other fields.
    pub fn get_sha256_hash(
        id: &String,
        nonce: &u32,
        height: &u32,
        prev_block_hash: &String,
    ) -> (hash: String)
        ensures
            hash@ == commitment(id@, *nonce as nat, *height as nat, prev_block_hash@),
            hash@.len() == 64,
    {
        let mut preimage = decimal_text(id.as_str().unicode_len() as u64);
        let nonce_text = decimal_text(*nonce as u64);
        let height_text = decimal_text(*height as u64);
        proof {
            reveal_strlit(":");
        }
        preimage.append(":");
        preimage.append(id.as_str());
        preimage.append(nonce_text.as_str());
        preimage.append(":");
        preimage.append(height_text.as_str());
        preimage.append(":");
        preimage.append(prev_block_hash.as_str());
        assert(":"@ =~= seq![':']);
        assert(preimage@ =~= commitment_preimage(
            id@,
            *nonce as nat,
            *height as nat,
            prev_block_hash@,
        ));
        sha256_digest(preimage.as_str())
    }

    /// Builds the genesis block for an identifier and a nonce.
    pub fn genesis(id: String, nonce: u32) -> (block: Self)
        ensures
            block@ == BlockDataView::genesis(id@, nonce as nat),
            block@.is_genesis(),
    {
        let height: u32 = 1;
        let prev_block_hash = String::new();
        let hash = Self::get_sha256_hash(&id, &nonce, &height, &prev_block_hash);
        BlockData { id, hash, nonce, height, prev_block_hash }
    }

    /// Builds the block that follows `tip`, for an identifier and a nonce.
    /// There is none when the height of `tip` is the largest a height can be.
    pub fn successor(tip: &BlockData, id: String, nonce: u32) -> (block: Option<Self>)
        ensures
            tip.height < u32::MAX ==> (block matches Some(next) && next@
                == BlockDataView::successor(tip@, id@, nonce as nat) && next@.extends(tip@)),
            tip.height == u32::MAX ==> block is None,
    {
        if tip.height == u32::MAX {
            return None;
        }
        let height: u32 = tip.height + 1;
        let prev_block_hash = tip.hash.clone();
        let hash = Self::get_sha256_hash(&id, &nonce, &height, &prev_block_hash);
        Some(BlockData { id, hash, nonce, height, prev_block_hash })
    }

    /// Recomputes the commitment hash and compares it with the stored one.
    pub fn verify(&self) -> (intact: bool)
        ensures
            intact == self@.sealed(),
    {
        let hash =
            Self::get_sha256_hash(&self.id, &self.nonce, &self.height, &self.prev_block_hash);
        hash == self.hash
    }
}

} // verus!
