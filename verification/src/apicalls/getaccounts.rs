//! Importing the accounts (rekeningen) with the user each one belongs to.
use vstd::prelude::*;
use vstd::string::*;
use crate::apicalls::endpoint::{paged_endpoint, api_host, Endpoint};
use crate::text::{decimal, decimal_i64, signed_decimal};

verus! {

/// An account as the `/api/v1/Accounts` listing gives it: its id and the
/// ids of the users attached to it (possibly none).
pub struct LstAccount {
    pub id: i64,
    pub lst_user_ids: Vec<i64>,
}

/// The record stored for an account: the account and its (first) user.
#[derive(Debug, Clone, Copy, PartialEq, Eq, Structural)]
pub struct Account {
    pub accountid: i64,
    pub userid: i64,
}

/// The accounts listing at page `page`.
pub fn accounts_page(page: u64) -> (e: Endpoint)
    ensures
        e.path@ == "/api/v1/Accounts"@,
        e.url@ == api_host() + "/api/v1/Accounts"@ + "?pageNumber="@ + decimal(page as nat),
{
    paged_endpoint("/api/v1/Accounts", page)
}

/// What is stored for one listed account: nothing when no user is attached
/// to it, otherwise the account with the first of its users.
pub fn account_entry(account: &LstAccount) -> (r: Option<Account>)
    ensures
        r is None <==> account.lst_user_ids@.len() == 0,
        r matches Some(row) ==> row.accountid == account.id && row.userid
            == account.lst_user_ids@[0],
{
    if account.lst_user_ids.len() == 0 {
        None
    } else {
        Some(Account { accountid: account.id, userid: account.lst_user_ids[0] })
    }
}

/// How an import went: accounts stored, stores that failed, and accounts
/// skipped because no user is attached to them.
#[derive(Debug, Clone, Copy, PartialEq, Eq, Structural)]
pub struct ImportTally {
    pub succeeded: i32,
    pub failed: i32,
    pub without_user: i32,
}

impl ImportTally {
    /// Nothing counted yet.
    pub fn new() -> (t: ImportTally)
        ensures
            t == (ImportTally { succeeded: 0, failed: 0, without_user: 0 }),
    {
        ImportTally { succeeded: 0, failed: 0, without_user: 0 }
    }

    /// Counts an account that was skipped for want of a user.
    pub fn count_without_user(&mut self)
        requires
            old(self).without_user < i32::MAX,
        ensures
            final(self).succeeded == old(self).succeeded,
            final(self).failed == old(self).failed,
            final(self).without_user == old(self).without_user + 1,
    {
        self.without_user = self.without_user + 1;
    }

    /// Counts the outcome of storing an account, and says whether to go on
    /// with the page: after a failed store the rest of the page is dropped.
    pub fn record_store(&mut self, stored: bool) -> (go_on: bool)
        requires
            stored ==> old(self).succeeded < i32::MAX,
            !stored ==> old(self).failed < i32::MAX,
        ensures
            go_on == stored,
            final(self).succeeded == old(self).succeeded + if stored {
                1int
            } else {
                0int
            },
            final(self).failed == old(self).failed + if stored {
                0int
            } else {
                1int
            },
            final(self).without_user == old(self).without_user,
    {
        if stored {
            self.succeeded = self.succeeded + 1;
        } else {
            self.failed = self.failed + 1;
        }
        stored
    }

    /// The closing report of an import.
    pub fn summary(&self) -> (s: String)
        ensures
            s@ == signed_decimal(self.succeeded as int) + " were added succefully\n"@
                + signed_decimal(self.failed as int) + " were not added succesfully,\nand "@
                + signed_decimal(self.without_user as int) + " didn't have an userid"@,
    {
        decimal_i64(self.succeeded as i64).concat(" were added succefully\n").concat(
            decimal_i64(self.failed as i64).as_str(),
        ).concat(" were not added succesfully,\nand ").concat(
            decimal_i64(self.without_user as i64).as_str(),
        ).concat(" didn't have an userid")
    }
}

} // verus!
