use twelve_client::apicalls::getaccounts::{self, account_entry, ImportTally};
use twelve_client::apicalls::getproductgroups::{self, product_rows, LstProductGroup};
use twelve_client::apicalls::getsingleaccounts;
use twelve_client::apicalls::getsingleaccounts_v2;
use twelve_client::apicalls::getusers::{self, email_rows, user_rows, LstUser};
use twelve_client::apicalls::posttoken::email_hash;

#[test]
fn account_entry_uses_the_first_user() {
    let a = getaccounts::LstAccount { id: 7, lst_user_ids: vec![11, 12] };
    assert_eq!(account_entry(&a), Some(getaccounts::Account { accountid: 7, userid: 11 }));
    let b = getaccounts::LstAccount { id: 8, lst_user_ids: vec![] };
    assert_eq!(account_entry(&b), None);
}

#[test]
fn import_tally_counts_and_reports() {
    let mut t = ImportTally::new();
    assert!(t.record_store(true));
    assert!(t.record_store(true));
    t.count_without_user();
    assert!(!t.record_store(false));
    assert_eq!(t, ImportTally { succeeded: 2, failed: 1, without_user: 1 });
    assert_eq!(
        t.summary(),
        "2 were added succefully\n1 were not added succesfully,\nand 1 didn't have an userid"
    );
}

#[test]
fn product_rows_flatten_groups_in_order() {
    let root = getproductgroups::Root {
        lst_product_groups: vec![
            LstProductGroup { id: 1, name: "Bier".to_string(), lst_product_ids: vec![10, 11] },
            LstProductGroup { id: 2, name: "Fris".to_string(), lst_product_ids: vec![] },
            LstProductGroup { id: 3, name: "Snack".to_string(), lst_product_ids: vec![30] },
        ],
    };
    let rows = product_rows(&root);
    let got: Vec<(i64, i64, String)> =
        rows.iter().map(|p| (p.product_id, p.productgr_id, p.productgr_name.clone())).collect();
    assert_eq!(
        got,
        vec![
            (10, 1, "Bier".to_string()),
            (11, 1, "Bier".to_string()),
            (30, 3, "Snack".to_string())
        ]
    );
    assert!(product_rows(&getproductgroups::Root { lst_product_groups: vec![] }).is_empty());
}

#[test]
fn single_accounts_skip_shared_accounts() {
    let root = getsingleaccounts::Root {
        lst_accounts: vec![
            getsingleaccounts::LstAccount { id: 1, lst_user_ids: vec![5] },
            getsingleaccounts::LstAccount { id: 2, lst_user_ids: vec![6, 7] },
            getsingleaccounts::LstAccount { id: 3, lst_user_ids: vec![8] },
            getsingleaccounts::LstAccount { id: 4, lst_user_ids: vec![] },
        ],
    };
    assert_eq!(
        getsingleaccounts::account_rows(&root),
        vec![
            getsingleaccounts::Account { account_id: 1, user_id: 5 },
            getsingleaccounts::Account { account_id: 3, user_id: 8 }
        ]
    );
}

#[test]
fn paged_accounts_keep_exactly_one_user() {
    let page = vec![
        getsingleaccounts_v2::LstAccount { id: 1, lst_user_ids: vec![] },
        getsingleaccounts_v2::LstAccount { id: 2, lst_user_ids: vec![6, 7] },
        getsingleaccounts_v2::LstAccount { id: 3, lst_user_ids: vec![8] },
    ];
    assert_eq!(
        getsingleaccounts_v2::account_rows(&page),
        vec![getsingleaccounts_v2::Account { account_id: 3, user_id: 8 }]
    );
    assert_eq!(getsingleaccounts_v2::imported_pages(3), 3);
    assert_eq!(getsingleaccounts_v2::imported_pages(0), 0);
    assert_eq!(getsingleaccounts_v2::imported_pages(-2), 0);
}

#[test]
fn user_rows_keep_names() {
    let root = getusers::Root {
        lst_users: vec![
            LstUser { id: 4, first_name: "Ann".to_string(), last_name: "Bee".to_string(), email: Some("Foo@Example.COM".to_string()) },
            LstUser { id: 9, first_name: "Cy".to_string(), last_name: "Dee".to_string(), email: None },
        ],
    };
    let rows = user_rows(&root);
    assert_eq!(rows.len(), 2);
    assert_eq!((rows[0].user_id, rows[0].user_first_name.as_str(), rows[0].user_last_name.as_str()), (4, "Ann", "Bee"));
    assert_eq!((rows[1].user_id, rows[1].user_first_name.as_str(), rows[1].user_last_name.as_str()), (9, "Cy", "Dee"));
}

#[test]
fn email_rows_keep_only_the_hash() {
    let root = getusers::Root {
        lst_users: vec![
            LstUser { id: 4, first_name: "Ann".to_string(), last_name: "Bee".to_string(), email: Some("Foo@Example.COM".to_string()) },
            LstUser { id: 9, first_name: "Cy".to_string(), last_name: "Dee".to_string(), email: None },
            LstUser { id: 12, first_name: "Ed".to_string(), last_name: "Eff".to_string(), email: Some("abc".to_string()) },
        ],
    };
    let rows = email_rows(&root);
    let got: Vec<(String, i64)> = rows.iter().map(|r| (r.email.clone(), r.userid)).collect();
    assert_eq!(
        got,
        vec![
            ("321ba197033e81286fedb719d60d4ed5cecaed170733cb4a92013811afc0e3b6".to_string(), 4),
            ("ba7816bf8f01cfea414140de5dae2223b00361a396177a9cb410ff61f20015ad".to_string(), 12)
        ]
    );
    assert_eq!(email_hash("  foo@example.com\n"), rows[0].email);
}
