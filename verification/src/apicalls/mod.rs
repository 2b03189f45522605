pub mod endpoint;
pub mod getaccounts;
pub mod getproductgroups;
pub mod getsingleaccounts;
pub mod getsingleaccounts_v2;
pub mod getspent;
pub mod gettransactions;
pub mod getusers;
pub mod headermap;
pub mod postaccounts;
pub mod posttoken;
pub mod postusers;
