//! Transactions and the stores that keep them.

use crate::date::Date;
use vstd::prelude::*;

verus! {

/// One movement on the account: a positive amount is a deposit, a negative
/// amount a withdrawal. Amounts are in minor currency units.
#[derive(Debug, PartialEq, Eq, Structural)]
pub struct Transaction {
    pub amount: isize,
    pub date: Date,
}

/// `after` holds the transactions of `before`, unchanged and in their order,
/// and after them one more, of `amount`, whatever its date.
pub open spec fn one_more(before: Seq<Transaction>, after: Seq<Transaction>, amount: int) -> bool {
    &&& after.len() == before.len() + 1
    &&& after.drop_last() == before
    &&& after.last().amount == amount
}

/// An append-only store of transactions, in the order in which they were
/// recorded.
pub trait TransactionRepository {
    /// The stored transactions, oldest first.
    spec fn transactions(&self) -> Seq<Transaction>;

    /// Appends `transaction` after all the stored ones. Nothing is checked,
    /// and nothing that was stored changes.
    fn add(&mut self, transaction: Transaction)
        ensures
            final(self).transactions() == old(self).transactions().push(transaction),
    ;

    /// All the stored transactions, oldest first.
    fn all(&self) -> (stored: &Vec<Transaction>)
        ensures
            stored@ == self.transactions(),
    ;
}

/// A store that keeps its transactions in memory.
pub struct InMemoryRepository {
    transactions: Vec<Transaction>,
}

impl InMemoryRepository {
    /// A store without transactions.
    pub fn new() -> (repository: Self)
        ensures
            repository.transactions() == Seq::<Transaction>::empty(),
    {
        InMemoryRepository { transactions: Vec::new() }
    }
}

impl TransactionRepository for InMemoryRepository {
    closed spec fn transactions(&self) -> Seq<Transaction> {
        self.transactions@
    }

    fn add(&mut self, transaction: Transaction) {
        self.transactions.push(transaction);
    }

    fn all(&self) -> (stored: &Vec<Transaction>) {
        &self.transactions
    }
}

} // verus!
