//! Creating a user, and an account in that user's name.
use vstd::prelude::*;
use vstd::string::*;

verus! {

/// The body that creates a user.
#[allow(non_snake_case)]
pub struct NewUser {
    pub NameFirst: String,
    pub NamePrefix: String,
    pub NameLast: String,
    pub EmailAddress: String,
}

/// The reply to a created user: its id.
pub struct ReturnAccount {
    pub id: u64,
}

/// The body for a user with these names and e-mail address.
pub fn new_user(first: String, prefix: String, last: String, email: String) -> (u: NewUser)
    ensures
        u.NameFirst@ == first@,
        u.NamePrefix@ == prefix@,
        u.NameLast@ == last@,
        u.EmailAddress@ == email@,
{
    NewUser { NameFirst: first, NamePrefix: prefix, NameLast: last, EmailAddress: email }
}

/// The description of the user's account: first name, prefix and last name,
/// separated by single spaces.
pub fn account_description(first: &str, prefix: &str, last: &str) -> (s: String)
    ensures
        s@ == first@ + " "@ + prefix@ + " "@ + last@,
{
    String::from_str(first).concat(" ").concat(prefix).concat(" ").concat(last)
}

} // verus!
