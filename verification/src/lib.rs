//! Client-side logic for the Twelve point-of-sale API: reading the `.env`
//! credentials, signing requests, building endpoint URLs and request bodies,
//! and turning API replies into the rows that are stored locally.
pub mod apicalls;
pub mod error;
pub mod platform;
pub mod text;
