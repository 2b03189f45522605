//! Adding a card (token) to a user: finding the user by e-mail address,
//! choosing one of the user's accounts, and the body of the new token.
use vstd::prelude::*;
use vstd::string::*;
use crate::apicalls::endpoint::{endpoint, api_host, Endpoint};
use crate::apicalls::getusers::stored_email_hash;
use crate::error::ErrorKind;
use crate::platform::{
    format_utc, is_utc_reading, lemma_stamp_patterns, sha256_digest, sha256_hex, to_lowercase,
    unicode_lowercase, utc_format, utc_now,
};
use crate::text::{
    decimal, decimal_i64, is_digit, is_white_space, lemma_decimal_digits,
    lemma_parse_decimal_roundtrip, parse_usize, parsed_usize, signed_decimal, trim, trim_end,
    trim_start, trimmed,
};

verus! {

/// An account found for a user: the account and the user.
#[derive(Debug, Clone, Copy, PartialEq, Eq, Structural)]
pub struct ResAccount {
    pub accountid: i64,
    pub userid: i64,
}

/// A user found by e-mail address (the address is kept as its hash).
pub struct ResUser {
    pub email: String,
    pub userid: i64,
}

/// The body that creates a token, field by field as the API names them.
#[allow(non_snake_case)]
pub struct NewToken {
    pub number: String,
    pub description: String,
    pub serialNumber: String,
    pub cvc: String,
    pub allowLogin: bool,
    pub tokenStatusId: i64,
    pub paymentAccountId: i64,
    pub ownerUserId: i64,
}

/// The tokens endpoint.
pub fn tokens_endpoint() -> (e: Endpoint)
    ensures
        e.path@ == "/api/v1/Tokens"@,
        e.url@ == api_host() + "/api/v1/Tokens"@,
{
    proof {
        reveal_strlit("");
    }
    let e = endpoint("/api/v1/Tokens", "");
    assert(e.url@ =~= api_host() + "/api/v1/Tokens"@);
    e
}

/// The extra header that a token request carries, so that the API does not
/// add an account of its own to the new token.
pub fn auto_add_account_header() -> (h: (String, String))
    ensures
        h.0@ == "autoAddAccount"@,
        h.1@ == "false"@,
{
    (String::from_str("autoAddAccount"), String::from_str("false"))
}

/// The endpoint with the details of account `accountid`.
pub fn account_details_endpoint(accountid: i64) -> (e: Endpoint)
    ensures
        e.path@ == "/api/v1/Accounts/"@ + signed_decimal(accountid as int),
        e.url@ == api_host() + "/api/v1/Accounts/"@ + signed_decimal(accountid as int),
{
    let path = String::from_str("/api/v1/Accounts/").concat(decimal_i64(accountid).as_str());
    proof {
        reveal_strlit("");
    }
    let e = endpoint(path.as_str(), "");
    assert(e.url@ =~= api_host() + "/api/v1/Accounts/"@ + signed_decimal(accountid as int));
    e
}

/// The heading of the `count`-th account in the account details.
pub fn account_heading(count: i32) -> (s: String)
    ensures
        s@ == "ACCOUNT "@ + signed_decimal(count as int),
{
    String::from_str("ACCOUNT ").concat(decimal_i64(count as i64).as_str())
}

/// The account-details line of an account holder of account `accountid`.
pub fn holder_line(first: &str, prefix: &str, last: &str, accountid: i64) -> (s: String)
    ensures
        s@ == "Accountholder : "@ + first@ + " "@ + prefix@ + " "@ + last@ + "\naccountid : "@
            + signed_decimal(accountid as int),
{
    String::from_str("Accountholder : ").concat(first).concat(" ").concat(prefix).concat(" ").concat(
        last,
    ).concat("\naccountid : ").concat(decimal_i64(accountid).as_str())
}

/// The account-details line of a user of the account.
pub fn user_line(first: &str, prefix: &str, last: &str, userid: i64) -> (s: String)
    ensures
        s@ == "User : "@ + first@ + " "@ + prefix@ + " "@ + last@ + "\nuserid : "@ + signed_decimal(
            userid as int,
        ),
{
    String::from_str("User : ").concat(first).concat(" ").concat(prefix).concat(" ").concat(
        last,
    ).concat("\nuserid : ").concat(decimal_i64(userid).as_str())
}

/// The account-details line of a token (card) of the account.
pub fn token_line(number: &str, description: &str) -> (s: String)
    ensures
        s@ == "Token : "@ + number@ + " "@ + description@,
{
    String::from_str("Token : ").concat(number).concat(" ").concat(description)
}

/// The number of a card: `06730` followed by a unique stamp.
pub fn token_number(stamp: &str) -> (n: String)
    ensures
        n@ == "06730"@ + stamp@,
{
    String::from_str("06730").concat(stamp)
}

/// The number of a card made at the UTC time `secs`.`nanos`: `06730`
/// followed by that time as `%Y%d%m%H%M%S`. The stamp is digits (and
/// possibly a sign), at least 14 of them, and exactly 14 without a sign.
pub fn token_number_at(secs: i64, nanos: u32) -> (n: String)
    requires
        is_utc_reading(secs, nanos),
    ensures
        n@ == "06730"@ + utc_format(secs, nanos, "%Y%d%m%H%M%S"@),
        n@.len() >= 19,
        (forall|i: int| 5 <= i < n@.len() ==> is_digit(#[trigger] n@[i])) ==> n@.len() == 19,
        n@.take(5) == "06730"@,
        forall|i: int|
            5 <= i < n@.len() ==> is_digit(#[trigger] n@[i]) || n@[i] == '+' || n@[i] == '-',
{
    proof {
        lemma_stamp_patterns();
        reveal_strlit("06730");
    }
    let stamp = format_utc(secs, nanos, "%Y%d%m%H%M%S");
    let n = token_number(stamp.as_str());
    assert(n@.take(5) =~= "06730"@);
    assert((forall|i: int| 5 <= i < n@.len() ==> is_digit(#[trigger] n@[i])) ==> (forall|i: int|
        0 <= i < stamp@.len() ==> is_digit(#[trigger] stamp@[i]))) by {
        if forall|i: int| 5 <= i < n@.len() ==> is_digit(#[trigger] n@[i]) {
            assert forall|i: int| 0 <= i < stamp@.len() implies is_digit(#[trigger] stamp@[i]) by {
                assert(n@[i + 5] == stamp@[i]);
            }
        }
    }
    assert forall|i: int| 5 <= i < n@.len() implies is_digit(#[trigger] n@[i]) || n@[i] == '+'
        || n@[i] == '-' by {
        assert(n@[i] == stamp@[i - 5]);
    }
    n
}

/// The number for a new card: `token_number_at` of the current UTC time,
/// read from the clock. Which reading is left open; the stamp is the
/// formatting of one.
pub fn token_number_now() -> (n: String)
    ensures
        exists|secs: i64, nanos: u32|
            is_utc_reading(secs, nanos) && n@ == "06730"@ + #[trigger] utc_format(
                secs,
                nanos,
                "%Y%d%m%H%M%S"@,
            ),
        n@.len() >= 19,
        (forall|i: int| 5 <= i < n@.len() ==> is_digit(#[trigger] n@[i])) ==> n@.len() == 19,
        n@.take(5) == "06730"@,
        forall|i: int|
            5 <= i < n@.len() ==> is_digit(#[trigger] n@[i]) || n@[i] == '+' || n@[i] == '-',
{
    let (secs, nanos) = utc_now();
    let n = token_number_at(secs, nanos);
    assert(is_utc_reading(secs, nanos) && n@ == "06730"@ + utc_format(
        secs,
        nanos,
        "%Y%d%m%H%M%S"@,
    ));
    n
}

/// The description of a card created on `date`.
pub fn card_description(date: &str) -> (d: String)
    ensures
        d@ == "Rusty Card Creator "@ + date@,
{
    String::from_str("Rusty Card Creator ").concat(date)
}

/// The description of a card made on the UTC date of `secs`.`nanos`:
/// `Rusty Card Creator ` followed by that date as `%Y%m%d` (year, month,
/// day); at least 8 stamp characters, exactly 8 without a sign.
pub fn card_description_at(secs: i64, nanos: u32) -> (d: String)
    requires
        is_utc_reading(secs, nanos),
    ensures
        d@ == "Rusty Card Creator "@ + utc_format(secs, nanos, "%Y%m%d"@),
        d@.len() >= 27,
        (forall|i: int| 19 <= i < d@.len() ==> is_digit(#[trigger] d@[i])) ==> d@.len() == 27,
        d@.take(19) == "Rusty Card Creator "@,
        forall|i: int|
            19 <= i < d@.len() ==> is_digit(#[trigger] d@[i]) || d@[i] == '+' || d@[i] == '-',
{
    proof {
        lemma_stamp_patterns();
        reveal_strlit("Rusty Card Creator ");
    }
    let date = format_utc(secs, nanos, "%Y%m%d");
    let d = card_description(date.as_str());
    assert(d@.take(19) =~= "Rusty Card Creator "@);
    assert((forall|i: int| 19 <= i < d@.len() ==> is_digit(#[trigger] d@[i])) ==> (forall|i: int|
        0 <= i < date@.len() ==> is_digit(#[trigger] date@[i]))) by {
        if forall|i: int| 19 <= i < d@.len() ==> is_digit(#[trigger] d@[i]) {
            assert forall|i: int| 0 <= i < date@.len() implies is_digit(#[trigger] date@[i]) by {
                assert(d@[i + 19] == date@[i]);
            }
        }
    }
    assert forall|i: int| 19 <= i < d@.len() implies is_digit(#[trigger] d@[i]) || d@[i] == '+'
        || d@[i] == '-' by {
        assert(d@[i] == date@[i - 19]);
    }
    d
}

/// The description of a card created today: `card_description_at` of the
/// current UTC time, read from the clock. Which reading is left open; the
/// date is the formatting of one.
pub fn card_description_now() -> (d: String)
    ensures
        exists|secs: i64, nanos: u32|
            is_utc_reading(secs, nanos) && d@ == "Rusty Card Creator "@ + #[trigger] utc_format(
                secs,
                nanos,
                "%Y%m%d"@,
            ),
        d@.len() >= 27,
        (forall|i: int| 19 <= i < d@.len() ==> is_digit(#[trigger] d@[i])) ==> d@.len() == 27,
        d@.take(19) == "Rusty Card Creator "@,
        forall|i: int|
            19 <= i < d@.len() ==> is_digit(#[trigger] d@[i]) || d@[i] == '+' || d@[i] == '-',
{
    let (secs, nanos) = utc_now();
    let d = card_description_at(secs, nanos);
    assert(is_utc_reading(secs, nanos) && d@ == "Rusty Card Creator "@ + utc_format(
        secs,
        nanos,
        "%Y%m%d"@,
    ));
    d
}

/// The body of a new active token (status 2) that cannot be used to log in,
/// with the card's serial number and CVC as typed (trimmed), paid from
/// account `accountid` and owned by user `userid`.
pub fn new_token(
    number: String,
    description: String,
    card_line: &str,
    cvc_line: &str,
    accountid: i64,
    userid: i64,
) -> (t: NewToken)
    ensures
        t.number@ == number@,
        t.description@ == description@,
        t.serialNumber@ == trimmed(card_line@),
        t.cvc@ == trimmed(cvc_line@),
        !t.allowLogin,
        t.tokenStatusId == 2,
        t.paymentAccountId == accountid,
        t.ownerUserId == userid,
{
    NewToken {
        number,
        description,
        serialNumber: trim(card_line),
        cvc: trim(cvc_line),
        allowLogin: false,
        tokenStatusId: 2,
        paymentAccountId: accountid,
        ownerUserId: userid,
    }
}

/// Whether a typed answer confirms: trimmed and in lower case, it is `y` or
/// `yes`.
pub fn confirmed(line: &str) -> (b: bool)
    ensures
        b == (unicode_lowercase(trimmed(line@)) == "y"@ || unicode_lowercase(trimmed(line@))
            == "yes"@),
{
    let t = trim(line);
    let answer = to_lowercase(t.as_str());
    let y = String::from_str("y");
    let yes = String::from_str("yes");
    answer == y || answer == yes
}

/// The hash under which a typed e-mail address is looked up: the SHA-256
/// digest of the address, trimmed and in lower case.
pub fn email_hash(line: &str) -> (h: String)
    ensures
        h@ == sha256_hex(unicode_lowercase(trimmed(line@))),
{
    let email = trim(line);
    let lower = to_lowercase(email.as_str());
    sha256_digest(lower.as_str())
}

/// A user who types the address that was listed for them, with any white
/// space around it and in any mix of case that lowers alike, is looked up
/// under the hash that their record was stored with.
pub proof fn lemma_typed_email_finds_user(line: Seq<char>, email: Seq<char>)
    requires
        unicode_lowercase(trimmed(line)) == unicode_lowercase(email),
    ensures
        sha256_hex(unicode_lowercase(trimmed(line))) == stored_email_hash(email),
{
}

/// The user that an e-mail address belongs to: the first one found;
/// `InvalidData` when none is.
pub fn found_user(users: &Vec<ResUser>) -> (r: Result<i64, ErrorKind>)
    ensures
        match r {
            Ok(id) => users@.len() > 0 && id == users@[0].userid,
            Err(e) => users@.len() == 0 && e == ErrorKind::InvalidData,
        },
{
    if users.len() == 0 {
        Err(ErrorKind::InvalidData)
    } else {
        Ok(users[0].userid)
    }
}

/// Whether the user has accounts: `InvalidData` when none is found.
pub fn found_accounts(accounts: &Vec<ResAccount>) -> (r: Result<(), ErrorKind>)
    ensures
        r is Ok <==> accounts@.len() > 0,
        r matches Err(e) ==> e == ErrorKind::InvalidData,
{
    if accounts.len() == 0 {
        Err(ErrorKind::InvalidData)
    } else {
        Ok(())
    }
}

/// The account chosen by the number typed on `line` (counted from 1 in the
/// order the accounts were shown): its user and account ids. A line that is
/// not a number is `InvalidData`; a number outside the list is refused.
pub fn choose_account(accounts: &Vec<ResAccount>, line: &str) -> (r: Result<(i64, i64), ErrorKind>)
    requires
        parsed_usize(trimmed(line@)) matches Some(k) ==> 1 <= k <= accounts@.len(),
    ensures
        match parsed_usize(trimmed(line@)) {
            Some(k) => r == Ok::<(i64, i64), ErrorKind>(
                (accounts@[k - 1].userid, accounts@[k - 1].accountid),
            ),
            None => r == Err::<(i64, i64), ErrorKind>(ErrorKind::InvalidData),
        },
{
    let typed = trim(line);
    match parse_usize(typed.as_str()) {
        Some(k) => {
            let chosen = accounts[k - 1];
            Ok((chosen.userid, chosen.accountid))
        },
        None => Err(ErrorKind::InvalidData),
    }
}

/// Typing the decimal number `k` chooses the `k`-th account shown.
pub proof fn lemma_choose_by_number(accounts: Seq<ResAccount>, k: nat)
    requires
        1 <= k <= accounts.len(),
        k <= usize::MAX,
    ensures
        parsed_usize(trimmed(decimal(k))) == Some(k),
{
    lemma_decimal_digits(k);
    let s = decimal(k);
    assert(!is_white_space(s[0]));
    assert(trim_start(s) == s);
    assert(s.last() == s[s.len() - 1]);
    assert(!is_white_space(s.last()));
    assert(trim_end(s) == s);
    lemma_parse_decimal_roundtrip(k);
}

} // verus!
