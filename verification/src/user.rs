//! Users of the contest.

use vstd::prelude::*;

verus! {

/// The identifier of a user.
#[derive(Debug)]
pub struct UserId(pub String);

impl View for UserId {
    type V = Seq<char>;

    open spec fn view(&self) -> Seq<char> {
        self.0@
    }
}

impl Clone for UserId {
    fn clone(&self) -> (copy: Self)
        ensures
            copy == *self,
    {
        UserId(self.0.clone())
    }
}

/// A user as the contest keeps them.
#[derive(Debug)]
pub struct UserData {
    pub id: String,
    pub display_name: String,
}

impl Clone for UserData {
    fn clone(&self) -> (copy: Self)
        ensures
            copy == *self,
    {
        UserData { id: self.id.clone(), display_name: self.display_name.clone() }
    }
}

/// A user, or nobody in particular.
#[derive(Debug)]
pub struct User {
    pub data: Option<UserData>,
}

/// The identifiers of `users`, in order.
pub open spec fn ids_of(users: Seq<UserData>) -> Seq<Seq<char>> {
    users.map_values(|user: UserData| user.id@)
}

/// Whether `user` is the first of `users` who has the identifier `id`.
pub open spec fn is_first_with_id(users: Seq<UserData>, id: Seq<char>, user: UserData) -> bool {
    exists|k: int|
        0 <= k < users.len() && #[trigger] users[k] == user && user.id@ == id && forall|j: int|
            0 <= j < k ==> (#[trigger] users[j]).id@ != id
}

/// Get a user by their identifier: the first of `users` who has it.
pub fn by_id(users: &Vec<UserData>, id: &UserId) -> (found: Option<UserData>)
    ensures
        found is Some <==> ids_of(users@).contains(id@),
        found matches Some(user) ==> is_first_with_id(users@, id@, user),
{
    let mut i: usize = 0;
    while i < users.len()
        invariant
            i <= users.len(),
            forall|k: int| 0 <= k < i ==> (#[trigger] users@[k]).id@ != id@,
        decreases users.len() - i,
    {
        if users[i].id == id.0 {
            proof {
                assert(ids_of(users@)[i as int] == id@);
                assert(users@[i as int] == users@[i as int]);
            }
            return Some(users[i].clone());
        }
        i += 1;
    }
    assert forall|k: int| 0 <= k < ids_of(users@).len() implies ids_of(users@)[k] != id@ by {
        assert(users@[k].id@ != id@);
    }
    None
}

} // verus!
