//! Importing the accounts that have a single user, from the first page of
//! the accounts listing.
use vstd::prelude::*;
use vstd::string::*;
use crate::apicalls::endpoint::{endpoint, api_host, Endpoint};
use crate::apicalls::getsingleaccounts_v2::{
    from_some_account, has_account_record, lemma_one_user_records_keep_every_single_user_account,
    one_user_count, one_user_records,
};

verus! {

/// The `/api/v1/Accounts` reply.
pub struct Root {
    pub lst_accounts: Vec<LstAccount>,
}

/// A listed account: its id and the ids of its users.
pub struct LstAccount {
    pub id: i64,
    pub lst_user_ids: Vec<i64>,
}

/// The record stored for an account: the account and its user.
#[derive(Debug, Clone, Copy, PartialEq, Eq, Structural)]
pub struct Account {
    pub account_id: i64,
    pub user_id: i64,
}

/// A listed account as plain values: its id and its user ids.
pub open spec fn listed(a: LstAccount) -> (i64, Seq<i64>) {
    (a.id, a.lst_user_ids@)
}

/// A stored record as plain values: account id and user id.
pub open spec fn record(r: Account) -> (i64, i64) {
    (r.account_id, r.user_id)
}

/// The accounts endpoint.
pub fn accounts_endpoint() -> (e: Endpoint)
    ensures
        e.path@ == "/api/v1/Accounts"@,
        e.url@ == api_host() + "/api/v1/Accounts"@,
{
    proof {
        reveal_strlit("");
    }
    let e = endpoint("/api/v1/Accounts", "");
    assert(e.url@ =~= api_host() + "/api/v1/Accounts"@);
    e
}

/// The records of a reply: accounts without a user, or with more than one,
/// are left out.
pub fn account_rows(root: &Root) -> (rows: Vec<Account>)
    ensures
        rows@.map_values(|r: Account| record(r)) == one_user_records(
            root.lst_accounts@.map_values(|a: LstAccount| listed(a)),
        ),
        forall|k: int|
            0 <= k < rows@.len() ==> from_some_account(
                record(#[trigger] rows@[k]),
                root.lst_accounts@.map_values(|a: LstAccount| listed(a)),
            ),
        forall|i: int|
            0 <= i < root.lst_accounts@.len() && (#[trigger] root.lst_accounts@[i]).lst_user_ids@.len() == 1
                ==> has_account_record(
                rows@.map_values(|r: Account| record(r)),
                listed(root.lst_accounts@[i]),
            ),
        rows@.len() == one_user_count(root.lst_accounts@.map_values(|a: LstAccount| listed(a))),
{
    let accounts = &root.lst_accounts;
    let mut rows: Vec<Account> = Vec::new();
    let mut i: usize = 0;
    while i < accounts.len()
        invariant
            i <= accounts@.len(),
            accounts == &root.lst_accounts,
            rows@.map_values(|r: Account| record(r)) == one_user_records(
                accounts@.take(i as int).map_values(|a: LstAccount| listed(a)),
            ),
        decreases accounts.len() - i,
    {
        let account = &accounts[i];
        assert(accounts@.take(i + 1).map_values(|a: LstAccount| listed(a)).drop_last()
            =~= accounts@.take(i as int).map_values(|a: LstAccount| listed(a)));
        let ghost prev = rows@;
        if account.lst_user_ids.len() == 1 {
            rows.push(Account { account_id: account.id, user_id: account.lst_user_ids[0] });
            assert(rows@.map_values(|r: Account| record(r)) =~= prev.map_values(
                |r: Account| record(r),
            ).push((account.id, account.lst_user_ids@[0])));
        }
        i = i + 1;
    }
    assert(accounts@.take(i as int) =~= accounts@);
    proof {
        let all = accounts@.map_values(|a: LstAccount| listed(a));
        let viewed = rows@.map_values(|r: Account| record(r));
        lemma_one_user_records_keep_every_single_user_account(all);
        assert forall|k: int| 0 <= k < rows@.len() implies from_some_account(
            record(#[trigger] rows@[k]),
            all,
        ) by {
            assert(viewed[k] == record(rows@[k]));
            assert(from_some_account(one_user_records(all)[k], all));
        }
        assert forall|i: int|
            0 <= i < accounts@.len() && (#[trigger] accounts@[i]).lst_user_ids@.len() == 1
                implies has_account_record(viewed, listed(accounts@[i])) by {
            assert(all[i] == listed(accounts@[i]));
            assert(has_account_record(one_user_records(all), all[i]));
        }
    }
    rows
}

} // verus!
