//! The revenue transactions of a fixed period, with who paid them.
use vstd::prelude::*;
use vstd::string::*;
use crate::apicalls::endpoint::{endpoint, api_host, Endpoint};

verus! {

/// The account a payment line was paid with.
pub struct PaymentMethodDetails {
    pub account_id: i64,
}

/// The revenue transactions endpoint, filtered to the period from
/// 2023-10-10 17:33:57 to 2023-11-14 17:33:57.
pub fn spent_endpoint() -> (e: Endpoint)
    ensures
        e.path@ == "/api/v1/RevenueTransactions"@,
        e.url@ == api_host() + "/api/v1/RevenueTransactions"@
            + "?filterDateStart=2023-10-10T17%3A33%3A57&filterDateEnd=2023-11-14T17%3A33%3A57"@,
{
    endpoint(
        "/api/v1/RevenueTransactions",
        "?filterDateStart=2023-10-10T17%3A33%3A57&filterDateEnd=2023-11-14T17%3A33%3A57",
    )
}

} // verus!
