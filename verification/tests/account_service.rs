use bank_rust::clock::Clock;
use bank_rust::date::Date;
use bank_rust::transaction::{InMemoryRepository, Transaction, TransactionRepository};
use bank_rust::{AccountError, AccountService};
use std::cell::Cell;

struct MockClock;

impl Clock for MockClock {
    fn now(&self) -> Date {
        Date::new(2015, 12, 01).unwrap()
    }
}

/// A clock that counts how often it is asked.
struct CountingClock<'a> {
    asked: &'a Cell<usize>,
}

impl Clock for CountingClock<'_> {
    fn now(&self) -> Date {
        self.asked.set(self.asked.get() + 1);
        Date::new(2015, 12, 01).unwrap()
    }
}

#[test]
fn it_registers_a_deposit() {
    let expected: Vec<Transaction> = vec![Transaction {
        amount: 1000,
        date: Date::new(2015, 12, 01).unwrap(),
    }];

    let mut account_service = AccountService::new(InMemoryRepository::new(), MockClock);
    account_service.deposit(1000).unwrap();

    assert_eq!(&expected, account_service.all_transactions());
}

#[test]
#[should_panic]
fn it_does_not_allow_negative_deposit() {
    let mut account_service = AccountService::new(InMemoryRepository::new(), MockClock);
    account_service.deposit(-1000).unwrap();
}

#[test]
fn it_registers_a_withdraw() {
    let expected: Vec<Transaction> = vec![Transaction {
        amount: -1000,
        date: Date::new(2015, 12, 01).unwrap(),
    }];

    let mut account_service = AccountService::new(InMemoryRepository::new(), MockClock);
    account_service.withdraw(1000).unwrap();

    assert_eq!(&expected, account_service.all_transactions());
}

#[test]
#[should_panic]
fn it_does_not_allow_negative_withdraw() {
    let mut account_service = AccountService::new(InMemoryRepository::new(), MockClock);
    account_service.withdraw(-1000).unwrap();
}

#[test]
fn a_deposit_below_one_is_an_invalid_amount() {
    let mut account_service = AccountService::new(InMemoryRepository::new(), MockClock);
    account_service.deposit(25).unwrap();
    for amount in [0, -1, -1000, isize::MIN] {
        assert_eq!(account_service.deposit(amount), Err(AccountError::InvalidAmount));
        assert_eq!(account_service.all_transactions().len(), 1);
    }
    assert_eq!(account_service.all_transactions()[0].amount, 25);
}

#[test]
fn a_withdrawal_below_one_is_an_invalid_amount() {
    let mut account_service = AccountService::new(InMemoryRepository::new(), MockClock);
    account_service.deposit(25).unwrap();
    for amount in [0, -1, -1000, isize::MIN] {
        assert_eq!(account_service.withdraw(amount), Err(AccountError::InvalidAmount));
        assert_eq!(account_service.all_transactions().len(), 1);
    }
    assert_eq!(account_service.all_transactions()[0].amount, 25);
}

#[test]
fn a_rejected_amount_does_not_ask_the_clock() {
    let asked = Cell::new(0);
    let mut account_service =
        AccountService::new(InMemoryRepository::new(), CountingClock { asked: &asked });
    assert_eq!(account_service.deposit(0), Err(AccountError::InvalidAmount));
    assert_eq!(account_service.withdraw(-3), Err(AccountError::InvalidAmount));
    assert_eq!(asked.get(), 0);
    assert_eq!(account_service.deposit(1), Ok(()));
    assert_eq!(account_service.withdraw(1), Ok(()));
    assert_eq!(asked.get(), 2);
}

#[test]
fn a_deposit_stores_the_amount_and_a_withdrawal_its_negative() {
    let mut account_service = AccountService::new(InMemoryRepository::new(), MockClock);
    for amount in [1, 2, 500, isize::MAX] {
        assert_eq!(account_service.deposit(amount), Ok(()));
        assert_eq!(account_service.all_transactions().last().unwrap().amount, amount);
        assert_eq!(account_service.withdraw(amount), Ok(()));
        assert_eq!(account_service.all_transactions().last().unwrap().amount, -amount);
    }
    assert_eq!(account_service.all_transactions().len(), 8);
}

#[test]
fn transactions_stay_in_the_order_of_recording() {
    let mut account_service = AccountService::new(InMemoryRepository::new(), MockClock);
    account_service.deposit(10).unwrap();
    account_service.withdraw(4).unwrap();
    account_service.deposit(7).unwrap();
    let amounts: Vec<isize> =
        account_service.all_transactions().iter().map(|transaction| transaction.amount).collect();
    assert_eq!(amounts, vec![10, -4, 7]);
}

#[test]
fn a_transaction_can_be_recorded_on_a_given_date() {
    let mut account_service = AccountService::new(InMemoryRepository::new(), MockClock);
    let first = Date::new(2012, 1, 10).unwrap();
    let second = Date::new(2012, 1, 13).unwrap();
    assert_eq!(account_service.deposit_on(1000, first), Ok(()));
    assert_eq!(account_service.withdraw_on(300, second), Ok(()));
    assert_eq!(account_service.deposit_on(0, second), Err(AccountError::InvalidAmount));
    assert_eq!(account_service.withdraw_on(-300, second), Err(AccountError::InvalidAmount));
    let expected = vec![
        Transaction { amount: 1000, date: first },
        Transaction { amount: -300, date: second },
    ];
    assert_eq!(&expected, account_service.all_transactions());
}

#[test]
fn an_account_takes_over_what_its_repository_holds() {
    let mut repository = InMemoryRepository::new();
    repository.add(Transaction { amount: 5, date: Date::new(2020, 2, 29).unwrap() });
    repository.add(Transaction { amount: -3, date: Date::new(2020, 3, 1).unwrap() });
    let expected = vec![
        Transaction { amount: 5, date: Date::new(2020, 2, 29).unwrap() },
        Transaction { amount: -3, date: Date::new(2020, 3, 1).unwrap() },
    ];
    assert_eq!(&expected, repository.all());
    let account_service = AccountService::new(repository, MockClock);
    assert_eq!(&expected, account_service.all_transactions());
}

#[test]
fn a_new_repository_is_empty() {
    let repository = InMemoryRepository::new();
    assert!(repository.all().is_empty());
}
