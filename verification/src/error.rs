use vstd::prelude::*;

verus! {

/// The ways in which the ledger refuses an operation.
#[derive(Clone, Copy, Debug, PartialEq, Eq, Structural)]
pub enum BlockFactoryError {
    /// A block was to be appended while the chain holds no genesis block.
    MissingGenesis,
    /// A genesis block was to be created while the chain already holds one.
    AlreadyInitialized,
    /// The store refused a row, or has no room for another block.
    PersistenceFailure,
    /// The instruction of a transaction is not valid UTF-8.
    EncodingFailure,
}

impl BlockFactoryError {
    /// The message shown for this error.
    pub fn message(&self) -> (text: &'static str)
        ensures
            text@ == self.message_text(),
    {
        match self {
            BlockFactoryError::MissingGenesis => "genesis block missing",
            BlockFactoryError::AlreadyInitialized => "genesis block already stored",
            BlockFactoryError::PersistenceFailure => "persistence failure",
            BlockFactoryError::EncodingFailure => "instruction is not valid UTF-8",
        }
    }

    /// The characters of [`BlockFactoryError::message`].
    pub open spec fn message_text(&self) -> Seq<char> {
        match self {
            BlockFactoryError::MissingGenesis => "genesis block missing"@,
            BlockFactoryError::AlreadyInitialized => "genesis block already stored"@,
            BlockFactoryError::PersistenceFailure => "persistence failure"@,
            BlockFactoryError::EncodingFailure => "instruction is not valid UTF-8"@,
        }
    }
}

} // verus!
