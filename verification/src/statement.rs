//! The statement of an account: what it says, and how it is written.
//!
//! A statement starts with a header line. A line for every transaction
//! follows, the most recent first; each shows the date and the amount of its
//! transaction and the balance of the account once that transaction was made.

use crate::date::Date;
use crate::decimal::{integer_text, signed_decimal};
use crate::sink::Sent;
use crate::transaction::Transaction;
use vstd::prelude::*;
use vstd::string::*;

verus! {

/// The first line of every statement.
pub const STATEMENT_HEADER: &'static str = "Date | Amount | Balance";

/// The first line of every statement, as characters.
pub open spec fn header_text() -> Seq<char> {
    "Date | Amount | Balance"@
}

/// What stands between two fields of a line.
pub open spec fn separator() -> Seq<char> {
    " | "@
}

/// What ends every line.
pub open spec fn line_break() -> Seq<char> {
    "\n"@
}

/// The balance of an account on which `transactions` were made and no
/// others: the sum of their amounts.
pub open spec fn balance(transactions: Seq<Transaction>) -> int
    decreases transactions.len(),
{
    if transactions.len() == 0 {
        0
    } else {
        balance(transactions.drop_last()) + transactions.last().amount
    }
}

/// The balance once the transaction at `index` was made: the sum of the
/// amounts up to and including it.
pub open spec fn balance_after(transactions: Seq<Transaction>, index: int) -> int {
    balance(transactions.take(index + 1))
}

/// A line of a statement: date, amount and balance, with a separator between
/// them.
pub open spec fn line_text(date: Date, amount: int, balance: int) -> Seq<char> {
    date.text() + separator() + signed_decimal(amount) + separator() + signed_decimal(balance)
}

/// The line for the transaction at `index`.
pub open spec fn record_line(transactions: Seq<Transaction>, index: int) -> Seq<char> {
    line_text(
        transactions[index].date,
        transactions[index].amount as int,
        balance_after(transactions, index),
    )
}

/// The lines for all the transactions, in the order in which they were made.
pub open spec fn record_lines(transactions: Seq<Transaction>) -> Seq<Seq<char>> {
    Seq::new(transactions.len(), |index: int| record_line(transactions, index))
}

/// The lines of a statement from top to bottom: the header, then the lines
/// for the transactions with the most recent first.
pub open spec fn statement_lines(transactions: Seq<Transaction>) -> Seq<Seq<char>> {
    seq![header_text()] + record_lines(transactions).reverse()
}

/// The text that holds `lines` one after the other, each followed by a line
/// break.
pub open spec fn joined_lines(lines: Seq<Seq<char>>) -> Seq<char>
    decreases lines.len(),
{
    if lines.len() == 0 {
        Seq::empty()
    } else {
        joined_lines(lines.drop_last()) + lines.last() + line_break()
    }
}

/// The whole statement as one text.
pub open spec fn statement_text(transactions: Seq<Transaction>) -> Seq<char> {
    joined_lines(statement_lines(transactions))
}

/// The writes that send `lines` from the first to the last, each line with
/// its line break in one write, when the sink accepts them all.
pub open spec fn accepted_lines(lines: Seq<Seq<char>>) -> Seq<Sent> {
    Seq::new(lines.len(), |index: int| Sent { text: lines[index] + line_break(), accepted: true })
}

/// The writes that send `lines` when the sink accepts the first `count` of
/// them and rejects the next: the rejected write is the last.
pub open spec fn stopped_at(lines: Seq<Seq<char>>, count: int) -> Seq<Sent> {
    accepted_lines(lines.take(count)).push(
        Sent { text: lines[count] + line_break(), accepted: false },
    )
}

/// The text that a sink holds after the writes of `log`: the texts that it
/// accepted, one after the other.
pub open spec fn accepted_text(log: Seq<Sent>) -> Seq<char>
    decreases log.len(),
{
    if log.len() == 0 {
        Seq::empty()
    } else if log.last().accepted {
        accepted_text(log.drop_last()) + log.last().text
    } else {
        accepted_text(log.drop_last())
    }
}

/// What each of `lines` holds.
pub open spec fn texts(lines: Seq<String>) -> Seq<Seq<char>> {
    Seq::new(lines.len(), |index: int| lines[index]@)
}

/// A balance never leaves the range that the number of transactions allows.
pub proof fn lemma_balance_bounds(transactions: Seq<Transaction>)
    ensures
        transactions.len() * isize::MIN <= balance(transactions) <= transactions.len()
            * isize::MAX,
    decreases transactions.len(),
{
    if transactions.len() > 0 {
        lemma_balance_bounds(transactions.drop_last());
        let count = transactions.len() as int;
        assert((count - 1) * isize::MIN + isize::MIN == count * isize::MIN) by (nonlinear_arith);
        assert((count - 1) * isize::MAX + isize::MAX == count * isize::MAX) by (nonlinear_arith);
    }
}

/// Each balance is the balance before it plus the amount of its transaction,
/// and the first balance is the first amount.
pub proof fn lemma_balance_accumulates(transactions: Seq<Transaction>, index: int)
    requires
        0 <= index < transactions.len(),
    ensures
        index == 0 ==> balance_after(transactions, index) == transactions[index].amount,
        index > 0 ==> balance_after(transactions, index) == balance_after(transactions, index - 1)
            + transactions[index].amount,
{
    let upto = transactions.take(index + 1);
    assert(upto.last() == transactions[index]);
    assert(upto.drop_last() =~= transactions.take(index));
    if index == 0 {
        assert(balance(transactions.take(0)) == 0);
    }
}

/// A statement has its header and one line for every transaction, no more
/// and no fewer, and a transaction that was made later stands higher: the
/// line of the newest is directly under the header, the line of the oldest
/// is the last.
pub proof fn lemma_statement_order(transactions: Seq<Transaction>)
    ensures
        statement_lines(transactions).len() == transactions.len() + 1,
        statement_lines(transactions)[0] == header_text(),
        forall|index: int|
            0 <= index < transactions.len() ==> statement_lines(transactions)[transactions.len()
                - index] == #[trigger] record_line(transactions, index),
{
    let newest_first = record_lines(transactions).reverse();
    assert(newest_first.len() == transactions.len());
    assert forall|index: int| 0 <= index < transactions.len() implies statement_lines(
        transactions,
    )[transactions.len() - index] == #[trigger] record_line(transactions, index) by {
        assert(newest_first[transactions.len() - 1 - index] == record_lines(transactions)[index]);
    }
}

/// A transaction that is recorded later changes no line of an earlier one:
/// neither what the line shows of its transaction nor its balance.
pub proof fn lemma_earlier_lines_stay(
    before: Seq<Transaction>,
    transaction: Transaction,
    index: int,
)
    requires
        0 <= index < before.len(),
    ensures
        balance_after(before.push(transaction), index) == balance_after(before, index),
        record_line(before.push(transaction), index) == record_line(before, index),
{
    assert(before.push(transaction).take(index + 1) =~= before.take(index + 1));
}

/// Recording a transaction puts one new line directly under the header and
/// leaves every line that was there as it was and where it was below that.
/// The new line shows the balance that the account had, plus the amount.
pub proof fn lemma_statement_after_recording(before: Seq<Transaction>, transaction: Transaction)
    ensures
        statement_lines(before.push(transaction)) == seq![
            header_text(),
            line_text(
                transaction.date,
                transaction.amount as int,
                balance(before) + transaction.amount,
            ),
        ] + statement_lines(before).skip(1),
{
    let after = before.push(transaction);
    let count = before.len() as int;
    let expected = seq![
        header_text(),
        line_text(transaction.date, transaction.amount as int, balance(before) + transaction.amount),
    ] + statement_lines(before).skip(1);
    lemma_statement_order(before);
    lemma_statement_order(after);
    assert(after.take(count + 1) =~= after);
    assert(after.drop_last() =~= before);
    assert forall|k: int| 0 <= k < after.len() + 1 implies statement_lines(after)[k]
        == expected[k] by {
        // The line at `k` belongs to the transaction at `index`.
        let index = count + 1 - k;
        if k >= 2 {
            lemma_earlier_lines_stay(before, transaction, index);
            assert(statement_lines(before)[count - index] == record_line(before, index));
        }
        if k >= 1 {
            assert(statement_lines(after)[count + 1 - index] == record_line(after, index));
        }
    }
    assert(statement_lines(after) =~= expected);
}

/// What a sink holds after two runs of writes is what it holds after the
/// first, then what the second adds.
pub proof fn lemma_accepted_text_continues(earlier: Seq<Sent>, later: Seq<Sent>)
    ensures
        accepted_text(earlier + later) == accepted_text(earlier) + accepted_text(later),
    decreases later.len(),
{
    if later.len() == 0 {
        assert(earlier + later =~= earlier);
    } else {
        lemma_accepted_text_continues(earlier, later.drop_last());
        assert((earlier + later).drop_last() =~= earlier + later.drop_last());
        assert((earlier + later).last() == later.last());
    }
}

/// A sink that accepts every line of a statement holds, after what it held
/// before, the text of the statement.
pub proof fn lemma_accepted_statement(earlier: Seq<Sent>, transactions: Seq<Transaction>)
    ensures
        accepted_text(earlier + accepted_lines(statement_lines(transactions))) == accepted_text(
            earlier,
        ) + statement_text(transactions),
{
    lemma_accepted_text_continues(earlier, accepted_lines(statement_lines(transactions)));
    lemma_accepted_lines_join(statement_lines(transactions));
}

/// Lines that a sink accepts one by one add up to the lines joined.
pub proof fn lemma_accepted_lines_join(lines: Seq<Seq<char>>)
    ensures
        accepted_text(accepted_lines(lines)) == joined_lines(lines),
    decreases lines.len(),
{
    if lines.len() > 0 {
        lemma_accepted_lines_join(lines.drop_last());
        assert(accepted_lines(lines).drop_last() =~= accepted_lines(lines.drop_last()));
        assert(accepted_text(accepted_lines(lines)) =~= joined_lines(lines));
    }
}

/// A sink that rejects a line of a statement holds, after what it held
/// before, the lines above that line and nothing of the line itself.
pub proof fn lemma_stopped_statement(earlier: Seq<Sent>, lines: Seq<Seq<char>>, count: int)
    requires
        0 <= count < lines.len(),
    ensures
        accepted_text(earlier + stopped_at(lines, count)) == accepted_text(earlier) + joined_lines(
            lines.take(count),
        ),
{
    lemma_accepted_text_continues(earlier, stopped_at(lines, count));
    lemma_accepted_lines_join(lines.take(count));
    assert(stopped_at(lines, count).drop_last() =~= accepted_lines(lines.take(count)));
}

/// Adding one line to the end adds that line and a line break to the text.
pub proof fn lemma_joined_lines_push(lines: Seq<Seq<char>>, line: Seq<char>)
    ensures
        joined_lines(lines.push(line)) == joined_lines(lines) + line + line_break(),
{
    assert(lines.push(line).drop_last() =~= lines);
    assert(lines.push(line).last() == line);
}

/// Writes one line of a statement.
pub fn render_line(date: &Date, amount: isize, balance: i128) -> (line: String)
    ensures
        line@ == line_text(*date, amount as int, balance as int),
{
    let mut line = date.to_text();
    line.append(" | ");
    let amount_text = integer_text(amount as i128);
    line.append(amount_text.as_str());
    line.append(" | ");
    let balance_text = integer_text(balance);
    line.append(balance_text.as_str());
    assert(line@ =~= line_text(*date, amount as int, balance as int));
    line
}

/// Writes the lines for all of `transactions`, in the order in which they
/// were made. One pass from the oldest to the newest adds up the balance.
pub fn render_records(transactions: &Vec<Transaction>) -> (lines: Vec<String>)
    ensures
        texts(lines@) == record_lines(transactions@),
{
    let mut lines: Vec<String> = Vec::new();
    let mut total: i128 = 0;
    let mut index: usize = 0;
    while index < transactions.len()
        invariant
            index <= transactions.len(),
            total == balance(transactions@.take(index as int)),
            lines.len() == index,
            forall|k: int|
                0 <= k < index ==> (#[trigger] lines[k])@ == record_line(transactions@, k),
        decreases transactions.len() - index,
    {
        proof {
            lemma_balance_bounds(transactions@.take(index as int));
            lemma_balance_accumulates(transactions@, index as int);
            assert(index * isize::MAX <= usize::MAX * isize::MAX) by (nonlinear_arith)
                requires
                    index <= usize::MAX,
                    isize::MAX >= 0,
            ;
            assert(index * isize::MIN >= usize::MAX * isize::MIN) by (nonlinear_arith)
                requires
                    index <= usize::MAX,
                    isize::MIN <= 0,
            ;
            assert(usize::MAX * isize::MAX + isize::MAX <= i128::MAX) by (nonlinear_arith)
                requires
                    usize::MAX <= 0xffff_ffff_ffff_ffff,
                    0 <= isize::MAX <= 0x7fff_ffff_ffff_ffff,
            ;
            assert(usize::MAX * isize::MIN + isize::MIN >= i128::MIN) by (nonlinear_arith)
                requires
                    0 <= usize::MAX <= 0xffff_ffff_ffff_ffff,
                    -0x8000_0000_0000_0000 <= isize::MIN <= 0,
            ;
        }
        let transaction = &transactions[index];
        total = total + transaction.amount as i128;
        let line = render_line(&transaction.date, transaction.amount, total);
        lines.push(line);
        index = index + 1;
    }
    assert(texts(lines@) =~= record_lines(transactions@));
    lines
}

/// Writes the lines of the statement from top to bottom: the header, then
/// the lines for `transactions` with the most recent first.
pub fn render_lines(transactions: &Vec<Transaction>) -> (lines: Vec<String>)
    ensures
        texts(lines@) == statement_lines(transactions@),
{
    let mut records = render_records(transactions);
    let ghost chronological = texts(records@);
    let count = records.len();
    assert(count == chronological.len() == transactions.len());
    let mut lines: Vec<String> = Vec::new();
    lines.push(STATEMENT_HEADER.to_owned());
    let mut left = count;
    while left > 0
        invariant
            left <= count,
            count == transactions.len(),
            chronological == record_lines(transactions@),
            records.len() == left,
            forall|k: int| 0 <= k < left ==> (#[trigger] records[k])@ == chronological[k],
            lines.len() == 1 + (count - left),
            lines[0]@ == header_text(),
            forall|k: int|
                1 <= k < lines.len() ==> (#[trigger] lines[k])@ == chronological[count - k],
        decreases left,
    {
        match records.pop() {
            Some(line) => {
                lines.push(line);
            },
            None => {},
        }
        left = left - 1;
    }
    proof {
        let newest_first = record_lines(transactions@).reverse();
        assert(newest_first.len() == count);
        assert forall|k: int| 0 <= k < count implies newest_first[k] == chronological[count - 1
            - k] by {}
        assert(texts(lines@) =~= statement_lines(transactions@));
    }
    lines
}

/// Writes the whole statement as one text, each line followed by a line
/// break.
pub fn render_statement(transactions: &Vec<Transaction>) -> (text: String)
    ensures
        text@ == statement_text(transactions@),
{
    let lines = render_lines(transactions);
    let mut text = String::new();
    let mut index: usize = 0;
    while index < lines.len()
        invariant
            index <= lines.len(),
            text@ == joined_lines(texts(lines@).take(index as int)),
        decreases lines.len() - index,
    {
        proof {
            let all = texts(lines@);
            assert(all.take(index + 1) =~= all.take(index as int).push(lines[index as int]@));
            lemma_joined_lines_push(all.take(index as int), lines[index as int]@);
        }
        text.append(lines[index].as_str());
        text.append("\n");
        index = index + 1;
    }
    assert(texts(lines@).take(index as int) =~= texts(lines@));
    text
}

} // verus!
