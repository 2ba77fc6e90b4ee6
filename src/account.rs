//! Ledger accounts.
use vstd::prelude::*;
use crate::address::{Address, ParseError, checksummed_text, is_checksummed};

verus! {

/// An account: its address, the next nonce it will use and its balance.
pub struct Account {
    pub address: Address,
    pub nonce: u64,
    pub balance: u64,
}

impl Account {
    /// A fresh account with the given balance and nonce zero.
    pub fn new(address: Address, balance: u64) -> (r: Account)
        ensures
            r.address == address,
            r.nonce == 0,
            r.balance == balance,
    {
        Account { address, nonce: 0, balance }
    }
}

/// Opens an account for each `(checksummed address, balance)` pair, in order; fails when any
/// address text is not checksummed.
pub fn accounts_from_balances(balances: &Vec<(String, u64)>) -> (r: Result<Vec<Account>, ParseError>)
    ensures
        match r {
            Ok(accounts) => accounts@.len() == balances@.len() && forall|i: int| 0 <= i < accounts@.len() ==> {
                &&& balances@[i].0@ == checksummed_text(#[trigger] accounts@[i].address@)
                &&& accounts@[i].nonce == 0
                &&& accounts@[i].balance == balances@[i].1
            },
            Err(_) => exists|i: int| 0 <= i < balances@.len() && !is_checksummed(#[trigger] balances@[i].0@),
        },
{
    let mut accounts: Vec<Account> = Vec::new();
    let mut i: usize = 0;
    while i < balances.len()
        invariant
            i <= balances@.len(),
            accounts@.len() == i,
            forall|k: int| 0 <= k < i ==> {
                &&& balances@[k].0@ == checksummed_text(#[trigger] accounts@[k].address@)
                &&& accounts@[k].nonce == 0
                &&& accounts@[k].balance == balances@[k].1
            },
        decreases balances@.len() - i,
    {
        let entry = &balances[i];
        match Address::parse_checksummed(entry.0.as_str()) {
            Ok(address) => {
                accounts.push(Account::new(address, entry.1));
            },
            Err(e) => {
                return Err(e);
            },
        }
        i += 1;
    }
    Ok(accounts)
}

} // verus!
