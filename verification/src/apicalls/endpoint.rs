//! Endpoints of the API: the path that a request signs and the URL that it
//! is sent to.
use vstd::prelude::*;
use vstd::string::*;
use crate::text::{decimal, decimal_u64};

verus! {

/// An endpoint: `path` (such as `/api/v1/Accounts`) is what the request
/// signature covers; `url` is where the request goes, the path with the
/// host before it and any query after it.
pub struct Endpoint {
    pub path: String,
    pub url: String,
}

/// The host that serves the API.
pub open spec fn api_host() -> Seq<char> {
    "https://clientapi.twelve.eu"@
}

/// The endpoint `path` with the query `query` (empty, or starting with `?`).
/// The signed path does not include the query.
pub fn endpoint(path: &str, query: &str) -> (e: Endpoint)
    ensures
        e.path@ == path@,
        e.url@ == api_host() + path@ + query@,
{
    let url = String::from_str("https://clientapi.twelve.eu").concat(path).concat(query);
    Endpoint { path: String::from_str(path), url }
}

/// The endpoint `path` at page `page` of its listing (`?pageNumber=page`).
pub fn paged_endpoint(path: &str, page: u64) -> (e: Endpoint)
    ensures
        e.path@ == path@,
        e.url@ == api_host() + path@ + "?pageNumber="@ + decimal(page as nat),
{
    let query = String::from_str("?pageNumber=").concat(decimal_u64(page).as_str());
    endpoint(path, query.as_str())
}

} // verus!
