use twelve_client::apicalls::endpoint::{endpoint, paged_endpoint};
use twelve_client::apicalls::getaccounts::accounts_page;
use twelve_client::apicalls::getproductgroups::product_groups_endpoint;
use twelve_client::apicalls::getspent::spent_endpoint;
use twelve_client::apicalls::gettransactions::transactions_endpoint;
use twelve_client::apicalls::getusers::users_endpoint;
use twelve_client::apicalls::postaccounts::{
    account_number, account_number_at, accounts_endpoint, link_endpoint, link_report, new_account, normalize_answer,
};
use twelve_client::apicalls::posttoken::{
    account_details_endpoint, card_description, card_description_at, card_description_now, choose_account, confirmed,
    email_hash, found_accounts, found_user, new_token, token_number, token_number_at, token_number_now,
    tokens_endpoint, auto_add_account_header, account_heading, holder_line, user_line, token_line,
    ResAccount, ResUser,
};
use twelve_client::apicalls::postusers::{account_description, new_user};
use twelve_client::error::ErrorKind;
use twelve_client::text::decimal_u64;

#[test]
fn endpoints_sign_the_path_only() {
    let e = endpoint("/api/v1/Accounts", "?x=1");
    assert_eq!(e.path, "/api/v1/Accounts");
    assert_eq!(e.url, "https://clientapi.twelve.eu/api/v1/Accounts?x=1");
    let e = paged_endpoint("/api/v1/Accounts", 3);
    assert_eq!(e.url, "https://clientapi.twelve.eu/api/v1/Accounts?pageNumber=3");
    assert_eq!(accounts_page(0).url, "https://clientapi.twelve.eu/api/v1/Accounts?pageNumber=0");
}

#[test]
fn fixed_endpoints() {
    assert_eq!(product_groups_endpoint().url, "https://clientapi.twelve.eu/api/v1/ProductGroups");
    assert_eq!(users_endpoint().url, "https://clientapi.twelve.eu/api/v1/Users");
    assert_eq!(accounts_endpoint().url, "https://clientapi.twelve.eu/api/v1/Accounts");
    assert_eq!(tokens_endpoint().url, "https://clientapi.twelve.eu/api/v1/Tokens");
    let t = transactions_endpoint();
    assert_eq!(t.path, "/api/v1/RevenueTransactions");
    assert_eq!(
        t.url,
        "https://clientapi.twelve.eu/api/v1/RevenueTransactions?filterDateStart=2023-10-15%2016%3A00%3A00&filterDateEnd=2023-10-15%2019%3A08%3A00"
    );
    let s = spent_endpoint();
    assert_eq!(s.path, "/api/v1/RevenueTransactions");
    assert_eq!(
        s.url,
        "https://clientapi.twelve.eu/api/v1/RevenueTransactions?filterDateStart=2023-10-10T17%3A33%3A57&filterDateEnd=2023-11-14T17%3A33%3A57"
    );
    assert_eq!(account_details_endpoint(4221647).path, "/api/v1/Accounts/4221647");
    assert_eq!(account_details_endpoint(-3).url, "https://clientapi.twelve.eu/api/v1/Accounts/-3");
}

#[test]
fn account_creation_body_and_link() {
    let a = new_account("Ann B Cee".to_string(), 0, "20231510".to_string());
    assert_eq!(a.description, "Ann B Cee");
    assert_eq!(a.number, "20231510");
    assert_eq!(a.credits, 0);
    assert!(!a.isNoSale);
    assert_eq!(a.statusId, 2);
    let l = link_endpoint(1151823, 4221647);
    assert_eq!(l.path, "/api/v1/Users/1151823/Accounts/4221647/LinkToAccount");
    assert_eq!(l.url, "https://clientapi.twelve.eu/api/v1/Users/1151823/Accounts/4221647/LinkToAccount");
    assert_eq!(link_report(true), "User created succesfully");
    assert_eq!(link_report(false), "Something went wrong");
}

#[test]
fn account_number_is_a_time_stamp() {
    let n = account_number();
    assert_eq!(n.len(), 23);
    assert!(n.chars().all(|c| c.is_ascii_digit()));
}

#[test]
fn account_number_of_a_given_time() {
    assert_eq!(account_number_at(0, 5), "19700101000000000000005");
    assert_eq!(account_number_at(1_700_000_000, 123_456_789), "20231411221320123456789");
}

#[test]
fn card_stamps_of_a_given_time() {
    assert_eq!(token_number_at(1_700_000_000, 0), "0673020231411221320");
    assert_eq!(card_description_at(1_700_000_000, 999_999_999), "Rusty Card Creator 20231114");
    assert_eq!(card_description_at(86_399, 0), "Rusty Card Creator 19700101");
    assert_eq!(card_description_at(86_400, 0), "Rusty Card Creator 19700102");
}

#[test]
fn years_past_9999_carry_a_sign() {
    let d = card_description_at(253_402_300_800, 0);
    assert_eq!(d, "Rusty Card Creator +100000101");
    assert_eq!(d.len(), 29);
}

#[test]
fn clock_readings_cover_chronos_range() {
    assert!(chrono::DateTime::from_timestamp(8_210_266_876_799, 999_999_999).is_some());
    assert!(chrono::DateTime::from_timestamp(8_210_266_876_800, 0).is_none());
}

#[test]
fn answers_are_trimmed_and_lowered() {
    assert_eq!(normalize_answer("  YeS \n"), "yes");
    assert_eq!(normalize_answer("ÄBC\n"), "äbc");
    assert!(confirmed("y\n"));
    assert!(confirmed(" YES "));
    assert!(!confirmed("n"));
    assert!(!confirmed("yess"));
    assert!(!confirmed(""));
}

#[test]
fn user_creation_body() {
    let u = new_user("Ann".to_string(), "van".to_string(), "Dam".to_string(), "a@b.c".to_string());
    assert_eq!((u.NameFirst.as_str(), u.NamePrefix.as_str(), u.NameLast.as_str(), u.EmailAddress.as_str()), ("Ann", "van", "Dam", "a@b.c"));
    assert_eq!(account_description("Ann", "van", "Dam"), "Ann van Dam");
    assert_eq!(account_description("Ann", "", "Dam"), "Ann  Dam");
}

#[test]
fn token_body() {
    assert_eq!(token_number("20231510120000"), "0673020231510120000");
    assert_eq!(card_description("20231510"), "Rusty Card Creator 20231510");
    let t = new_token(
        token_number("1"),
        card_description("2"),
        " 04B80AA \n",
        "10000070\r\n",
        4221647,
        1151823,
    );
    assert_eq!(t.number, "067301");
    assert_eq!(t.description, "Rusty Card Creator 2");
    assert_eq!(t.serialNumber, "04B80AA");
    assert_eq!(t.cvc, "10000070");
    assert!(!t.allowLogin);
    assert_eq!(t.tokenStatusId, 2);
    assert_eq!(t.paymentAccountId, 4221647);
    assert_eq!(t.ownerUserId, 1151823);
}

#[test]
fn token_request_header() {
    assert_eq!(auto_add_account_header(), ("autoAddAccount".to_string(), "false".to_string()));
}

#[test]
fn token_stamps_from_the_clock() {
    let n = token_number_now();
    assert!(n.starts_with("06730"));
    assert_eq!(n.len(), 19);
    assert!(n.chars().all(|c| c.is_ascii_digit()));
    let d = card_description_now();
    assert!(d.starts_with("Rusty Card Creator "));
    assert_eq!(d.len(), 27);
    let month: u32 = d[23..25].parse().unwrap();
    let day: u32 = d[25..27].parse().unwrap();
    assert!((1..=12).contains(&month) && (1..=31).contains(&day));
}

#[test]
fn email_hash_is_digest_of_lowered_trimmed_address() {
    assert_eq!(
        email_hash("  Foo@Example.COM \n"),
        "321ba197033e81286fedb719d60d4ed5cecaed170733cb4a92013811afc0e3b6"
    );
}

#[test]
fn lookups_that_find_nothing_are_invalid_data() {
    assert_eq!(found_user(&vec![]), Err(ErrorKind::InvalidData));
    let users = vec![
        ResUser { email: "h1".to_string(), userid: 5 },
        ResUser { email: "h1".to_string(), userid: 6 },
    ];
    assert_eq!(found_user(&users), Ok(5));
    assert_eq!(found_accounts(&vec![]), Err(ErrorKind::InvalidData));
    assert_eq!(found_accounts(&vec![ResAccount { accountid: 1, userid: 2 }]), Ok(()));
}

#[test]
fn choosing_an_account_by_number() {
    let accounts = vec![
        ResAccount { accountid: 100, userid: 5 },
        ResAccount { accountid: 200, userid: 5 },
    ];
    assert_eq!(choose_account(&accounts, "1\n"), Ok((5, 100)));
    assert_eq!(choose_account(&accounts, " 2 "), Ok((5, 200)));
    assert_eq!(choose_account(&accounts, "+2"), Ok((5, 200)));
    assert_eq!(choose_account(&accounts, "two"), Err(ErrorKind::InvalidData));
    assert_eq!(choose_account(&accounts, ""), Err(ErrorKind::InvalidData));
    for k in 1..=2u64 {
        assert_eq!(choose_account(&accounts, &decimal_u64(k)), Ok((5, accounts[k as usize - 1].accountid)));
    }
}

#[test]
fn account_details_lines() {
    assert_eq!(account_heading(2), "ACCOUNT 2");
    assert_eq!(holder_line("Ann", "van", "Dam", 4221647), "Accountholder : Ann van Dam\naccountid : 4221647");
    assert_eq!(user_line("Ann", "", "Dam", 1151823), "User : Ann  Dam\nuserid : 1151823");
    assert_eq!(token_line("0673012", "Rusty Card Creator 20231015"), "Token : 0673012 Rusty Card Creator 20231015");
}
