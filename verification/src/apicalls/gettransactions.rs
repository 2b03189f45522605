//! The revenue transactions of one evening: products sold and who paid.
use vstd::prelude::*;
use vstd::string::*;
use crate::apicalls::endpoint::{endpoint, api_host, Endpoint};

verus! {

/// The account a payment line was paid with.
pub struct PaymentMethodDetails {
    pub account_id: i64,
}

/// The revenue transactions endpoint, filtered to 2023-10-15 from 16:00:00
/// to 19:08:00.
pub fn transactions_endpoint() -> (e: Endpoint)
    ensures
        e.path@ == "/api/v1/RevenueTransactions"@,
        e.url@ == api_host() + "/api/v1/RevenueTransactions"@
            + "?filterDateStart=2023-10-15%2016%3A00%3A00&filterDateEnd=2023-10-15%2019%3A08%3A00"@,
{
    endpoint(
        "/api/v1/RevenueTransactions",
        "?filterDateStart=2023-10-15%2016%3A00%3A00&filterDateEnd=2023-10-15%2019%3A08%3A00",
    )
}

} // verus!
