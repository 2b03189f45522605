//! Importing the users: id, first name and last name.
use vstd::prelude::*;
use vstd::string::*;
use crate::apicalls::endpoint::{endpoint, api_host, Endpoint};
use crate::apicalls::posttoken::ResUser;
use crate::platform::{sha256_digest, sha256_hex, to_lowercase, unicode_lowercase};

verus! {

/// The `/api/v1/Users` reply.
pub struct Root {
    pub lst_users: Vec<LstUser>,
}

/// A listed user; the e-mail address may be missing.
pub struct LstUser {
    pub id: i64,
    pub first_name: String,
    pub last_name: String,
    pub email: Option<String>,
}

/// The record stored for a user.
pub struct User {
    pub user_id: i64,
    pub user_first_name: String,
    pub user_last_name: String,
}

/// The hash under which a user's e-mail address is kept: the SHA-256 digest
/// of the address in lower case.
pub open spec fn stored_email_hash(email: Seq<char>) -> Seq<char> {
    sha256_hex(unicode_lowercase(email))
}

/// The e-mail records for `users`, in order, as (hash, user id): one for
/// every user with an e-mail address; a user without one has none.
pub open spec fn email_records(users: Seq<LstUser>) -> Seq<(Seq<char>, i64)>
    decreases users.len(),
{
    if users.len() == 0 {
        Seq::empty()
    } else {
        let u = users.last();
        let earlier = email_records(users.drop_last());
        match u.email {
            Some(e) => earlier.push((stored_email_hash(e@), u.id)),
            None => earlier,
        }
    }
}

/// The users endpoint.
pub fn users_endpoint() -> (e: Endpoint)
    ensures
        e.path@ == "/api/v1/Users"@,
        e.url@ == api_host() + "/api/v1/Users"@,
{
    proof {
        reveal_strlit("");
    }
    let e = endpoint("/api/v1/Users", "");
    assert(e.url@ =~= api_host() + "/api/v1/Users"@);
    e
}

/// The records of a reply: one per listed user, in order.
pub fn user_rows(root: &Root) -> (rows: Vec<User>)
    ensures
        rows@.len() == root.lst_users@.len(),
        forall|i: int|
            0 <= i < rows@.len() ==> {
                &&& (#[trigger] rows@[i]).user_id == root.lst_users@[i].id
                &&& rows@[i].user_first_name@ == root.lst_users@[i].first_name@
                &&& rows@[i].user_last_name@ == root.lst_users@[i].last_name@
            },
{
    let users = &root.lst_users;
    let mut rows: Vec<User> = Vec::new();
    let mut i: usize = 0;
    while i < users.len()
        invariant
            i <= users@.len(),
            users == &root.lst_users,
            rows@.len() == i,
            forall|k: int|
                0 <= k < i ==> {
                    &&& (#[trigger] rows@[k]).user_id == users@[k].id
                    &&& rows@[k].user_first_name@ == users@[k].first_name@
                    &&& rows@[k].user_last_name@ == users@[k].last_name@
                },
        decreases users.len() - i,
    {
        let user = &users[i];
        rows.push(
            User {
                user_id: user.id,
                user_first_name: user.first_name.clone(),
                user_last_name: user.last_name.clone(),
            },
        );
        i = i + 1;
    }
    rows
}

/// The e-mail records of a reply, for finding a user by address: the user
/// id with the hash of the address (the address itself is not kept). Users
/// without an address are left out.
pub fn email_rows(root: &Root) -> (rows: Vec<ResUser>)
    ensures
        rows@.map_values(|r: ResUser| (r.email@, r.userid)) == email_records(root.lst_users@),
{
    let users = &root.lst_users;
    let mut rows: Vec<ResUser> = Vec::new();
    let mut i: usize = 0;
    while i < users.len()
        invariant
            i <= users@.len(),
            users == &root.lst_users,
            rows@.map_values(|r: ResUser| (r.email@, r.userid)) == email_records(
                users@.take(i as int),
            ),
        decreases users.len() - i,
    {
        let user = &users[i];
        assert(users@.take(i + 1).drop_last() =~= users@.take(i as int));
        let ghost prev = rows@;
        match &user.email {
            Some(e) => {
                let lower = to_lowercase(e.as_str());
                let hash = sha256_digest(lower.as_str());
                rows.push(ResUser { email: hash, userid: user.id });
                assert(rows@.map_values(|r: ResUser| (r.email@, r.userid)) =~= prev.map_values(
                    |r: ResUser| (r.email@, r.userid),
                ).push((stored_email_hash(e@), user.id)));
            },
            None => {},
        }
        i = i + 1;
    }
    assert(users@.take(i as int) =~= users@);
    rows
}

} // verus!
