//! Importing, page by page, the accounts that have exactly one user.
use vstd::prelude::*;
use vstd::string::*;
use crate::apicalls::endpoint::{paged_endpoint, api_host, Endpoint};
use crate::text::decimal;

verus! {

/// A listed account: its id and the ids of its users.
pub struct LstAccount {
    pub id: i64,
    pub lst_user_ids: Vec<i64>,
}

/// The record stored for an account: the account and its only user.
#[derive(Debug, Clone, Copy, PartialEq, Eq, Structural)]
pub struct Account {
    pub account_id: i64,
    pub user_id: i64,
}

/// The records for accounts given as (account id, user ids), in order, as
/// (account id, user id): every account with exactly one user, with that
/// user. Accounts without a user, or with more than one, are left out.
pub open spec fn one_user_records(accounts: Seq<(i64, Seq<i64>)>) -> Seq<(i64, i64)>
    decreases accounts.len(),
{
    if accounts.len() == 0 {
        Seq::empty()
    } else {
        let (id, users) = accounts.last();
        let earlier = one_user_records(accounts.drop_last());
        if users.len() == 1 {
            earlier.push((id, users[0]))
        } else {
            earlier
        }
    }
}

/// Whether `rec` is the record of the account `a`, given as (account id,
/// user ids): the account has exactly one user, and `rec` pairs the
/// account's id with that user.
pub open spec fn is_one_user_record(rec: (i64, i64), a: (i64, Seq<i64>)) -> bool {
    &&& a.1.len() == 1
    &&& rec.0 == a.0
    &&& rec.1 == a.1[0]
}

/// Whether `rec` is the record of some account of `accounts`.
pub open spec fn from_some_account(rec: (i64, i64), accounts: Seq<(i64, Seq<i64>)>) -> bool {
    exists|i: int| 0 <= i < accounts.len() && #[trigger] is_one_user_record(rec, accounts[i])
}

/// Whether some record of `recs` is the record of the account `a`.
pub open spec fn has_account_record(recs: Seq<(i64, i64)>, a: (i64, Seq<i64>)) -> bool {
    exists|k: int| 0 <= k < recs.len() && #[trigger] is_one_user_record(recs[k], a)
}

/// How many of `accounts` have exactly one user.
pub open spec fn one_user_count(accounts: Seq<(i64, Seq<i64>)>) -> nat
    decreases accounts.len(),
{
    if accounts.len() == 0 {
        0
    } else if accounts.last().1.len() == 1 {
        one_user_count(accounts.drop_last()) + 1
    } else {
        one_user_count(accounts.drop_last())
    }
}

/// The account that record `k` comes from.
proof fn lemma_one_user_source(accounts: Seq<(i64, Seq<i64>)>, k: int) -> (i: int)
    requires
        0 <= k < one_user_records(accounts).len(),
    ensures
        0 <= i < accounts.len(),
        is_one_user_record(one_user_records(accounts)[k], accounts[i]),
    decreases accounts.len(),
{
    let init = accounts.drop_last();
    let earlier = one_user_records(init);
    if k < earlier.len() {
        let i = lemma_one_user_source(init, k);
        assert(one_user_records(accounts)[k] == earlier[k]);
        assert(accounts[i] == init[i]);
        i
    } else {
        (accounts.len() - 1) as int
    }
}

/// The record of account `i`, which has exactly one user.
proof fn lemma_one_user_record_of(accounts: Seq<(i64, Seq<i64>)>, i: int) -> (k: int)
    requires
        0 <= i < accounts.len(),
        accounts[i].1.len() == 1,
    ensures
        0 <= k < one_user_records(accounts).len(),
        is_one_user_record(one_user_records(accounts)[k], accounts[i]),
    decreases accounts.len(),
{
    let init = accounts.drop_last();
    let earlier = one_user_records(init);
    if i < accounts.len() - 1 {
        assert(accounts[i] == init[i]);
        let k = lemma_one_user_record_of(init, i);
        assert(one_user_records(accounts)[k] == earlier[k]);
        k
    } else {
        earlier.len() as int
    }
}

proof fn lemma_one_user_count(accounts: Seq<(i64, Seq<i64>)>)
    ensures
        one_user_records(accounts).len() == one_user_count(accounts),
    decreases accounts.len(),
{
    if accounts.len() > 0 {
        lemma_one_user_count(accounts.drop_last());
    }
}

/// Every record is that of a listed account with exactly one user, pairing
/// the account with that user; every listed account with exactly one user
/// has its record, whatever other accounts the user has; and there are as
/// many records as such accounts.
pub proof fn lemma_one_user_records_keep_every_single_user_account(
    accounts: Seq<(i64, Seq<i64>)>,
)
    ensures
        forall|k: int|
            0 <= k < one_user_records(accounts).len() ==> from_some_account(
                #[trigger] one_user_records(accounts)[k],
                accounts,
            ),
        forall|i: int|
            0 <= i < accounts.len() && (#[trigger] accounts[i]).1.len() == 1 ==> has_account_record(
                one_user_records(accounts),
                accounts[i],
            ),
        one_user_records(accounts).len() == one_user_count(accounts),
{
    assert forall|k: int| 0 <= k < one_user_records(accounts).len() implies from_some_account(
        #[trigger] one_user_records(accounts)[k],
        accounts,
    ) by {
        let i = lemma_one_user_source(accounts, k);
        assert(is_one_user_record(one_user_records(accounts)[k], accounts[i]));
    }
    assert forall|i: int|
        0 <= i < accounts.len() && (#[trigger] accounts[i]).1.len() == 1 implies has_account_record(
            one_user_records(accounts),
            accounts[i],
        ) by {
        let k = lemma_one_user_record_of(accounts, i);
        assert(is_one_user_record(one_user_records(accounts)[k], accounts[i]));
    }
    lemma_one_user_count(accounts);
}

/// A listed account as plain values: its id and its user ids.
pub open spec fn listed(a: LstAccount) -> (i64, Seq<i64>) {
    (a.id, a.lst_user_ids@)
}

/// A stored record as plain values: account id and user id.
pub open spec fn record(r: Account) -> (i64, i64) {
    (r.account_id, r.user_id)
}

/// The number of listing pages to import, given the page count that the
/// listing reports: every page, `0..n`, and none for a count below one.
pub fn imported_pages(page_count: i64) -> (n: u64)
    ensures
        n == if page_count < 0 {
            0
        } else {
            page_count as int
        },
{
    if page_count < 0 {
        0
    } else {
        page_count as u64
    }
}

/// The accounts listing at page `page`.
pub fn accounts_page(page: u64) -> (e: Endpoint)
    ensures
        e.path@ == "/api/v1/Accounts"@,
        e.url@ == api_host() + "/api/v1/Accounts"@ + "?pageNumber="@ + decimal(page as nat),
{
    paged_endpoint("/api/v1/Accounts", page)
}

/// The records of one page: accounts without a user, or with more than one,
/// are left out.
pub fn account_rows(accounts: &Vec<LstAccount>) -> (rows: Vec<Account>)
    ensures
        rows@.map_values(|r: Account| record(r)) == one_user_records(
            accounts@.map_values(|a: LstAccount| listed(a)),
        ),
        forall|k: int|
            0 <= k < rows@.len() ==> from_some_account(
                record(#[trigger] rows@[k]),
                accounts@.map_values(|a: LstAccount| listed(a)),
            ),
        forall|i: int|
            0 <= i < accounts@.len() && (#[trigger] accounts@[i]).lst_user_ids@.len() == 1
                ==> has_account_record(
                rows@.map_values(|r: Account| record(r)),
                listed(accounts@[i]),
            ),
        rows@.len() == one_user_count(accounts@.map_values(|a: LstAccount| listed(a))),
{
    let mut rows: Vec<Account> = Vec::new();
    let mut i: usize = 0;
    while i < accounts.len()
        invariant
            i <= accounts@.len(),
            rows@.map_values(|r: Account| record(r)) == one_user_records(
                accounts@.take(i as int).map_values(|a: LstAccount| listed(a)),
            ),
        decreases accounts.len() - i,
    {
        let account = &accounts[i];
        assert(accounts@.take(i + 1).map_values(|a: LstAccount| listed(a)).drop_last()
            =~= accounts@.take(i as int).map_values(|a: LstAccount| listed(a)));
        let ghost prev = rows@;
        if account.lst_user_ids.len() == 1 {
            rows.push(Account { account_id: account.id, user_id: account.lst_user_ids[0] });
            assert(rows@.map_values(|r: Account| record(r)) =~= prev.map_values(
                |r: Account| record(r),
            ).push((account.id, account.lst_user_ids@[0])));
        }
        i = i + 1;
    }
    assert(accounts@.take(i as int) =~= accounts@);
    proof {
        let all = accounts@.map_values(|a: LstAccount| listed(a));
        let viewed = rows@.map_values(|r: Account| record(r));
        lemma_one_user_records_keep_every_single_user_account(all);
        assert forall|k: int| 0 <= k < rows@.len() implies from_some_account(
            record(#[trigger] rows@[k]),
            all,
        ) by {
            assert(viewed[k] == record(rows@[k]));
            assert(from_some_account(one_user_records(all)[k], all));
        }
        assert forall|i: int|
            0 <= i < accounts@.len() && (#[trigger] accounts@[i]).lst_user_ids@.len() == 1
                implies has_account_record(viewed, listed(accounts@[i])) by {
            assert(all[i] == listed(accounts@[i]));
            assert(has_account_record(one_user_records(all), all[i]));
        }
    }
    rows
}

} // verus!
