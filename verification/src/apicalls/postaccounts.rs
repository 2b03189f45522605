//! Creating an account (rekening) and linking it to a user.
use vstd::prelude::*;
use vstd::string::*;
use crate::apicalls::endpoint::{endpoint, api_host, Endpoint};
use crate::platform::{
    format_utc, is_utc_reading, lemma_stamp_patterns, to_lowercase, unicode_lowercase, utc_format,
    utc_now,
};
use crate::text::{decimal, decimal_u64, is_digit, trim, trimmed};

verus! {

/// The body that creates an account.
#[allow(non_snake_case)]
pub struct Account {
    pub number: String,
    pub description: String,
    pub credits: u64,
    pub isNoSale: bool,
    pub statusId: u8,
}

/// The reply to a created account or user: its id.
pub struct ReturnAccount {
    pub id: u64,
}

/// A new account for `username` with `credits`, under the account number
/// `number`: sales allowed (`isNoSale` false), status 2.
pub fn new_account(username: String, credits: u64, number: String) -> (a: Account)
    ensures
        a.number@ == number@,
        a.description@ == username@,
        a.credits == credits,
        !a.isNoSale,
        a.statusId == 2,
{
    Account { isNoSale: false, description: username, credits, number, statusId: 2 }
}

/// The account number for the UTC time `secs`.`nanos`: that time as
/// `%Y%d%m%H%M%S%f`. It is made of digits (and possibly a sign), at least 23
/// of them (year 4, day, month, hour, minute, second 2 each, nanoseconds 9),
/// and exactly 23 when no sign is written (a year in 0..=9999).
pub fn account_number_at(secs: i64, nanos: u32) -> (n: String)
    requires
        is_utc_reading(secs, nanos),
    ensures
        n@ == utc_format(secs, nanos, "%Y%d%m%H%M%S%f"@),
        n@.len() >= 23,
        (forall|i: int| 0 <= i < n@.len() ==> is_digit(#[trigger] n@[i])) ==> n@.len() == 23,
        forall|i: int|
            0 <= i < n@.len() ==> is_digit(#[trigger] n@[i]) || n@[i] == '+' || n@[i] == '-',
{
    proof {
        lemma_stamp_patterns();
    }
    format_utc(secs, nanos, "%Y%d%m%H%M%S%f")
}

/// A fresh account number: `account_number_at` of the current UTC time,
/// read from the clock. Which reading is left open; the number is the
/// formatting of one.
pub fn account_number() -> (n: String)
    ensures
        exists|secs: i64, nanos: u32|
            is_utc_reading(secs, nanos) && n@ == #[trigger] utc_format(
                secs,
                nanos,
                "%Y%d%m%H%M%S%f"@,
            ),
        n@.len() >= 23,
        (forall|i: int| 0 <= i < n@.len() ==> is_digit(#[trigger] n@[i])) ==> n@.len() == 23,
        forall|i: int|
            0 <= i < n@.len() ==> is_digit(#[trigger] n@[i]) || n@[i] == '+' || n@[i] == '-',
{
    let (secs, nanos) = utc_now();
    let n = account_number_at(secs, nanos);
    assert(is_utc_reading(secs, nanos) && n@ == utc_format(secs, nanos, "%Y%d%m%H%M%S%f"@));
    n
}

/// The accounts endpoint, where new accounts are posted.
pub fn accounts_endpoint() -> (e: Endpoint)
    ensures
        e.path@ == "/api/v1/Accounts"@,
        e.url@ == api_host() + "/api/v1/Accounts"@,
{
    proof {
        reveal_strlit("");
    }
    let e = endpoint("/api/v1/Accounts", "");
    assert(e.url@ =~= api_host() + "/api/v1/Accounts"@);
    e
}

/// The path that links account `accountid` to user `userid`.
pub open spec fn link_path(userid: nat, accountid: nat) -> Seq<char> {
    "/api/v1/Users/"@ + decimal(userid) + "/Accounts/"@ + decimal(accountid)
        + "/LinkToAccount"@
}

/// The endpoint that links account `accountid` to user `userid`.
pub fn link_endpoint(userid: u64, accountid: u64) -> (e: Endpoint)
    ensures
        e.path@ == link_path(userid as nat, accountid as nat),
        e.url@ == api_host() + link_path(userid as nat, accountid as nat),
{
    let path = String::from_str("/api/v1/Users/").concat(decimal_u64(userid).as_str()).concat(
        "/Accounts/",
    ).concat(decimal_u64(accountid).as_str()).concat("/LinkToAccount");
    proof {
        reveal_strlit("");
    }
    let e = endpoint(path.as_str(), "");
    assert(e.url@ =~= api_host() + link_path(userid as nat, accountid as nat));
    e
}

/// What is reported once the link request has been answered.
pub fn link_report(success: bool) -> (s: String)
    ensures
        s@ == (if success {
            "User created succesfully"@
        } else {
            "Something went wrong"@
        }),
{
    if success {
        String::from_str("User created succesfully")
    } else {
        String::from_str("Something went wrong")
    }
}

/// A typed answer as it is compared: trimmed and in lower case.
pub fn normalize_answer(line: &str) -> (s: String)
    ensures
        s@ == unicode_lowercase(trimmed(line@)),
{
    let t = trim(line);
    to_lowercase(t.as_str())
}

} // verus!
