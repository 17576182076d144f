//! The queries that a contest answers to anybody.

use crate::clock::server_window;
use crate::user::by_id;
use crate::user::ids_of;
use crate::user::is_first_with_id;
use crate::user::User;
use crate::user::UserData;
use crate::user::UserId;
use vstd::prelude::*;

verus! {

/// A user authorization token.
#[derive(Debug)]
pub struct UserToken {
    /// The user token, encoded.
    pub token: String,
}

/// Why a query was refused.
#[derive(Clone, Copy, Debug, PartialEq, Eq, Structural)]
pub enum QueryError {
    /// The caller is not allowed to act for the user.
    Forbidden,
    /// The contest has no such user.
    NotFound,
}

/// What a mutation answers when it went well.
#[derive(Clone, Copy, Debug, PartialEq, Eq, Structural)]
pub struct MutationOk;

impl MutationOk {
    /// Always true: that there is an answer says that it went well.
    pub fn ok() -> (ok: bool)
        ensures
            ok,
    {
        true
    }
}

/// The entry point of the queries to the contest.
#[derive(Clone, Copy, Debug, PartialEq, Eq, Structural)]
pub struct ContestQueries {}

impl ContestQueries {
    /// Get a user, or nobody in particular where no identifier is given.
    /// `authorized` tells whether the caller may act for that user, and
    /// `users` are the users that the contest keeps.
    pub fn user(&self, authorized: bool, id: Option<String>, users: &Vec<UserData>) -> (user: Result<
        User,
        QueryError,
    >)
        ensures
            !authorized ==> user == Err::<User, QueryError>(QueryError::Forbidden),
            authorized && id is None ==> user == Ok::<User, QueryError>(User { data: None }),
            authorized && id is Some && !ids_of(users@).contains(id->Some_0@) ==> user == Err::<User, QueryError>(
                QueryError::NotFound,
            ),
            authorized && id is Some && ids_of(users@).contains(id->Some_0@) ==> (user matches Ok(
                User { data: Some(found) },
            ) && is_first_with_id(users@, id->Some_0@, found)),
    {
        if !authorized {
            return Err(QueryError::Forbidden);
        }
        match id {
            Some(id) => match by_id(users, &UserId(id)) {
                Some(data) => Ok(User { data: Some(data) }),
                None => Err(QueryError::NotFound),
            },
            None => Ok(User { data: None }),
        }
    }

    /// Current time on the server as RFC 3339 date: whatever the server's
    /// clock says.
    pub fn server_time(&self) -> (time: String) {
        let (now, _) = server_window(0);
        now.text
    }
}

} // verus!
