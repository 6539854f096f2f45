//! A minimal bank account ledger: deposits and withdrawals are recorded with
//! the date on which they were made, and a statement lists them newest first
//! with a running balance.

pub mod clock;
pub mod date;
pub mod decimal;
pub mod sink;
pub mod statement;
pub mod transaction;

use crate::clock::Clock;
use crate::date::Date;
use crate::sink::{OutputSink, Recorded};
use crate::statement::{
    accepted_lines, line_break, render_lines, render_statement, statement_lines, statement_text,
    stopped_at, texts,
};
use crate::transaction::{one_more, Transaction, TransactionRepository};
use vstd::prelude::*;
use vstd::string::*;

verus! {

/// Why an operation on an account did not succeed.
#[derive(Clone, Copy, Debug, PartialEq, Eq, Structural)]
pub enum AccountError {
    /// The amount of a deposit or a withdrawal was zero or negative.
    InvalidAmount,
    /// The destination of a statement rejected a write.
    OutputFailure,
}

/// An account: it records deposits and withdrawals in its store, each with
/// the date that its clock gives, and writes statements.
pub struct AccountService<T: TransactionRepository, C: Clock> {
    transaction_repository: T,
    clock: C,
}

/// What writing a statement comes to once the destination has answered a
/// write.
pub fn write_outcome(accepted: bool) -> (outcome: Result<(), AccountError>)
    ensures
        accepted ==> outcome == Ok::<(), AccountError>(()),
        !accepted ==> outcome == Err::<(), AccountError>(AccountError::OutputFailure),
{
    if accepted {
        Ok(())
    } else {
        Err(AccountError::OutputFailure)
    }
}

impl<T: TransactionRepository, C: Clock> AccountService<T, C> {
    /// The transactions that the account has recorded, oldest first.
    pub closed spec fn transactions(&self) -> Seq<Transaction> {
        self.transaction_repository.transactions()
    }

    /// An account that keeps its transactions in `repository` and dates them
    /// by `clock`. What `repository` holds already belongs to the account.
    pub fn new(repository: T, clock: C) -> (service: Self)
        ensures
            service.transactions() == repository.transactions(),
    {
        AccountService { transaction_repository: repository, clock }
    }

    /// Records a deposit of `amount` made on `date`. An amount below one is
    /// rejected, and the account stays as it was.
    pub fn deposit_on(&mut self, amount: isize, date: Date) -> (outcome: Result<(), AccountError>)
        ensures
            amount < 1 ==> outcome == Err::<(), AccountError>(AccountError::InvalidAmount)
                && final(self).transactions() == old(self).transactions(),
            amount >= 1 ==> outcome == Ok::<(), AccountError>(()) && final(self).transactions()
                == old(self).transactions().push(Transaction { amount, date }),
    {
        if amount < 1 {
            return Err(AccountError::InvalidAmount);
        }
        self.transaction_repository.add(Transaction { amount, date });
        Ok(())
    }

    /// Records a withdrawal of `amount` made on `date`, as a transaction of
    /// minus that amount. An amount below one is rejected, and the account
    /// stays as it was.
    pub fn withdraw_on(&mut self, amount: isize, date: Date) -> (outcome: Result<(), AccountError>)
        ensures
            amount < 1 ==> outcome == Err::<(), AccountError>(AccountError::InvalidAmount)
                && final(self).transactions() == old(self).transactions(),
            amount >= 1 ==> outcome == Ok::<(), AccountError>(()) && final(self).transactions()
                == old(self).transactions().push(Transaction { amount: (-amount) as isize, date }),
    {
        if amount < 1 {
            return Err(AccountError::InvalidAmount);
        }
        self.transaction_repository.add(Transaction { amount: -amount, date });
        Ok(())
    }

    /// Records a deposit of `amount` with the date of today. An amount below
    /// one is rejected: the clock is not asked then, and the account stays as
    /// it was.
    pub fn deposit(&mut self, amount: isize) -> (outcome: Result<(), AccountError>)
        ensures
            amount < 1 ==> outcome == Err::<(), AccountError>(AccountError::InvalidAmount)
                && final(self).transactions() == old(self).transactions(),
            amount >= 1 ==> outcome == Ok::<(), AccountError>(()) && one_more(
                old(self).transactions(),
                final(self).transactions(),
                amount as int,
            ),
    {
        if amount < 1 {
            return Err(AccountError::InvalidAmount);
        }
        let date = self.clock.now();
        let outcome = self.deposit_on(amount, date);
        assert(self.transactions().drop_last() =~= old(self).transactions());
        outcome
    }

    /// Records a withdrawal of `amount` with the date of today, as a
    /// transaction of minus that amount. An amount below one is rejected: the
    /// clock is not asked then, and the account stays as it was.
    pub fn withdraw(&mut self, amount: isize) -> (outcome: Result<(), AccountError>)
        ensures
            amount < 1 ==> outcome == Err::<(), AccountError>(AccountError::InvalidAmount)
                && final(self).transactions() == old(self).transactions(),
            amount >= 1 ==> outcome == Ok::<(), AccountError>(()) && one_more(
                old(self).transactions(),
                final(self).transactions(),
                -amount,
            ),
    {
        if amount < 1 {
            return Err(AccountError::InvalidAmount);
        }
        let date = self.clock.now();
        let outcome = self.withdraw_on(amount, date);
        assert(self.transactions().drop_last() =~= old(self).transactions());
        outcome
    }

    /// The transactions that the account has recorded, oldest first.
    pub fn all_transactions(&self) -> (stored: &Vec<Transaction>)
        ensures
            stored@ == self.transactions(),
    {
        self.transaction_repository.all()
    }

    /// Writes the statement of the account as one text: the header line,
    /// then a line for every transaction, the most recent first. The account
    /// stays as it is.
    pub fn render_statement(&self) -> (text: String)
        ensures
            text@ == statement_text(self.transactions()),
    {
        render_statement(self.all_transactions())
    }

    /// Reading the statement twice, with no deposit or withdrawal in between,
    /// gives the same text both times: the text depends on the recorded
    /// transactions alone, and reading records none.
    pub proof fn lemma_statement_repeats(&self, first: String, second: String)
        requires
            first@ == statement_text(self.transactions()),
            second@ == statement_text(self.transactions()),
        ensures
            first@ == second@,
    {
    }

    /// Sends the statement of the account to `sink`, line by line from the
    /// top: the header, then the line of every transaction with the most
    /// recent first, each line with its line break in one write. Stops at the
    /// first write that `sink` rejects: the output has failed then, what
    /// `sink` took before stays written, and nothing more is sent. The
    /// output succeeds when `sink` accepts every line. The account stays as
    /// it is.
    pub fn print_statement<S: OutputSink>(&self, sink: &mut Recorded<S>) -> (outcome: Result<
        (),
        AccountError,
    >)
        ensures
            outcome is Ok ==> final(sink).log() == old(sink).log() + accepted_lines(
                statement_lines(self.transactions()),
            ),
            outcome is Err ==> outcome == Err::<(), AccountError>(AccountError::OutputFailure) && ({
                let lines = statement_lines(self.transactions());
                let count = final(sink).log().len() - old(sink).log().len() - 1;
                0 <= count < lines.len() && final(sink).log() == old(sink).log() + stopped_at(
                    lines,
                    count,
                )
            }),
    {
        let lines = render_lines(self.all_transactions());
        let ghost before = sink.log();
        let ghost all = statement_lines(self.transactions());
        let mut index: usize = 0;
        assert(sink.log() =~= before + accepted_lines(all.take(0)));
        while index < lines.len()
            invariant
                index <= lines.len(),
                before == old(sink).log(),
                all == statement_lines(self.transactions()),
                texts(lines@) == all,
                sink.log() == before + accepted_lines(all.take(index as int)),
            decreases lines.len() - index,
        {
            let mut line = lines[index].clone();
            line.append("\n");
            assert(line@ == all[index as int] + line_break()) by {
                assert(texts(lines@)[index as int] == lines[index as int]@);
            }
            let accepted = sink.write_text(line.as_str());
            let outcome = write_outcome(accepted);
            if outcome.is_err() {
                assert(sink.log() =~= before + stopped_at(all, index as int));
                assert(all.len() == lines.len());
                return outcome;
            }
            assert(sink.log() =~= before + accepted_lines(all.take(index + 1)));
            index = index + 1;
        }
        assert(all.take(index as int) =~= all);
        Ok(())
    }
}

} // verus!
