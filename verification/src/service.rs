use crate::error::{UserError, UserErrorView};
use crate::user::{is_valid, validation_failure, User, UserView};
use vstd::prelude::*;

verus! {

/// A list of users as plain values, in the same order.
pub open spec fn views(list: Seq<User>) -> Seq<UserView> {
    list.map_values(|user: User| user@)
}

/// An optional user as plain values.
pub open spec fn found_view(found: Option<User>) -> Option<UserView> {
    match found {
        Some(user) => Some(user@),
        None => None,
    }
}

/// The outcome of a lookup, as plain values.
pub open spec fn found_outcome(outcome: Result<Option<User>, UserError>) -> Result<
    Option<UserView>,
    UserErrorView,
> {
    match outcome {
        Ok(found) => Ok(found_view(found)),
        Err(error) => Err(error@),
    }
}

/// The outcome of an operation that yields a user, as plain values.
pub open spec fn user_outcome(outcome: Result<User, UserError>) -> Result<UserView, UserErrorView> {
    match outcome {
        Ok(user) => Ok(user@),
        Err(error) => Err(error@),
    }
}

/// The outcome of an operation that yields nothing, as plain values.
pub open spec fn unit_outcome(outcome: Result<(), UserError>) -> Result<(), UserErrorView> {
    match outcome {
        Ok(()) => Ok(()),
        Err(error) => Err(error@),
    }
}

/// The outcome of a listing, as plain values.
pub open spec fn list_outcome(outcome: Result<Vec<User>, UserError>) -> Result<
    Seq<UserView>,
    UserErrorView,
> {
    match outcome {
        Ok(list) => Ok(views(list@)),
        Err(error) => Err(error@),
    }
}

/// What a lookup of `id` finds among `users`.
pub open spec fn lookup(users: Map<u32, UserView>, id: u32) -> Option<UserView> {
    if users.contains_key(id) {
        Some(users[id])
    } else {
        None
    }
}

/// What every set of stored users satisfies: there are finitely many, each
/// is stored under its own identifier, which is not zero, and each is valid.
pub open spec fn consistent(users: Map<u32, UserView>) -> bool {
    &&& users.dom().finite()
    &&& forall|id: u32| #[trigger]
        users.contains_key(id) ==> id > 0 && users[id].id == id && is_valid(users[id])
}

/// `list` holds each of `users` exactly once, in some order.
pub open spec fn is_listing(list: Seq<UserView>, users: Map<u32, UserView>) -> bool {
    &&& list.len() == users.dom().len()
    &&& forall|i: int|
        0 <= i < list.len() ==> users.contains_key(#[trigger] list[i].id) && users[list[i].id]
            == list[i]
    &&& forall|i: int, j: int|
        0 <= i < j < list.len() ==> #[trigger] list[i].id != #[trigger] list[j].id
    &&& forall|id: u32| #[trigger]
        users.contains_key(id) ==> exists|i: int| 0 <= i < list.len() && #[trigger] list[i].id == id
}

/// Whether an error is the failure of a backend that can fail.
pub open spec fn is_backend_failure(error: UserErrorView, can_fail: bool) -> bool {
    can_fail && error is Database
}

/// What a lookup of `id` may return where `users` are stored: what is found
/// there, or the backend's failure. That nothing is stored under `id` is no
/// failure.
pub open spec fn reads(
    users: Map<u32, UserView>,
    id: u32,
    outcome: Result<Option<UserView>, UserErrorView>,
    can_fail: bool,
) -> bool {
    match outcome {
        Ok(found) => found == lookup(users, id),
        Err(error) => is_backend_failure(error, can_fail),
    }
}

/// What a listing may return where `users` are stored: each of them exactly
/// once, or the backend's failure.
pub open spec fn lists(
    users: Map<u32, UserView>,
    outcome: Result<Seq<UserView>, UserErrorView>,
    can_fail: bool,
) -> bool {
    match outcome {
        Ok(list) => is_listing(list, users),
        Err(error) => is_backend_failure(error, can_fail),
    }
}

/// How the creation of `user` may take the stored users from `before` to
/// `after`, and with what outcome. An invalid record fails with
/// `InvalidInput` and the reason. A valid one is stored, as it is but for its
/// identifier, under an identifier that is not zero and not in use, and comes
/// back as stored; or the backend fails. A failure changes nothing.
pub open spec fn creates(
    before: Map<u32, UserView>,
    after: Map<u32, UserView>,
    user: UserView,
    outcome: Result<UserView, UserErrorView>,
    can_fail: bool,
) -> bool {
    match outcome {
        Ok(created) => {
            &&& is_valid(user)
            &&& created.id > 0
            &&& !before.contains_key(created.id)
            &&& created == user.with_id(created.id)
            &&& after == before.insert(created.id, created)
        },
        Err(error) => {
            &&& after == before
            &&& match validation_failure(user) {
                Some(reason) => error == UserErrorView::InvalidInput(reason),
                None => is_backend_failure(error, can_fail),
            }
        },
    }
}

/// How the update of `user` may take the stored users from `before` to
/// `after`, and with what outcome. An invalid record fails with
/// `InvalidInput` and the reason; a valid one whose identifier is not in use
/// fails with `NotFound`. Otherwise the record replaces what was stored under
/// its identifier and comes back as stored; or the backend fails. A failure
/// changes nothing.
pub open spec fn updates(
    before: Map<u32, UserView>,
    after: Map<u32, UserView>,
    user: UserView,
    outcome: Result<UserView, UserErrorView>,
    can_fail: bool,
) -> bool {
    match outcome {
        Ok(stored) => {
            &&& is_valid(user)
            &&& before.contains_key(user.id)
            &&& stored == user
            &&& after == before.insert(user.id, user)
        },
        Err(error) => {
            &&& after == before
            &&& match validation_failure(user) {
                Some(reason) => error == UserErrorView::InvalidInput(reason),
                None => is_backend_failure(error, can_fail) || (error is NotFound
                    && !before.contains_key(user.id)),
            }
        },
    }
}

/// How the deletion of `id` may take the stored users from `before` to
/// `after`, and with what outcome. Where nothing is stored under `id` it
/// fails with `NotFound`. Otherwise that user is removed; or the backend
/// fails. A failure changes nothing.
pub open spec fn deletes(
    before: Map<u32, UserView>,
    after: Map<u32, UserView>,
    id: u32,
    outcome: Result<(), UserErrorView>,
    can_fail: bool,
) -> bool {
    match outcome {
        Ok(()) => before.contains_key(id) && after == before.remove(id),
        Err(error) => {
            &&& after == before
            &&& is_backend_failure(error, can_fail) || (error is NotFound && !before.contains_key(
                id,
            ))
        },
    }
}

/// The operations on stored users, whatever backend stores them.
///
/// Each operation takes effect as a whole or not at all, and a record is
/// validated before anything is changed.
pub trait UserService {
    /// The users held, by identifier.
    spec fn users(&self) -> Map<u32, UserView>;

    /// The backend's own well-formedness, which every operation keeps.
    spec fn inv(&self) -> bool;

    /// Whether an identifier is left to give to one more user.
    spec fn has_room(&self) -> bool;

    /// Whether the backend itself can fail, with `UserError::Database`. An
    /// operation on a backend that cannot fails only as its own rules say.
    spec fn can_fail(&self) -> bool;

    /// What a well-formed backend holds is consistent.
    proof fn lemma_users_consistent(&self)
        requires
            self.inv(),
        ensures
            consistent(self.users()),
    ;

    /// Whether `create_user` can still be called.
    fn can_create(&self) -> (room: bool)
        requires
            self.inv(),
        ensures
            room == self.has_room(),
    ;

    /// The user stored under `id`, if there is one.
    fn get_user(&self, id: u32) -> (outcome: Result<Option<User>, UserError>)
        requires
            self.inv(),
        ensures
            reads(self.users(), id, found_outcome(outcome), self.can_fail()),
    ;

    /// Validates `user`, stores it under a new identifier, and returns what
    /// was stored.
    fn create_user(&mut self, user: User) -> (outcome: Result<User, UserError>)
        requires
            old(self).inv(),
            old(self).has_room(),
        ensures
            final(self).inv(),
            final(self).can_fail() == old(self).can_fail(),
            outcome is Err ==> final(self).has_room(),
            creates(
                old(self).users(),
                final(self).users(),
                user@,
                user_outcome(outcome),
                old(self).can_fail(),
            ),
    ;

    /// Validates `user`, replaces what is stored under `user.id`, and
    /// returns what was stored.
    fn update_user(&mut self, user: User) -> (outcome: Result<User, UserError>)
        requires
            old(self).inv(),
        ensures
            final(self).inv(),
            final(self).can_fail() == old(self).can_fail(),
            final(self).has_room() == old(self).has_room(),
            updates(
                old(self).users(),
                final(self).users(),
                user@,
                user_outcome(outcome),
                old(self).can_fail(),
            ),
    ;

    /// Removes the user stored under `id`.
    fn delete_user(&mut self, id: u32) -> (outcome: Result<(), UserError>)
        requires
            old(self).inv(),
        ensures
            final(self).inv(),
            final(self).can_fail() == old(self).can_fail(),
            final(self).has_room() == old(self).has_room(),
            deletes(
                old(self).users(),
                final(self).users(),
                id,
                unit_outcome(outcome),
                old(self).can_fail(),
            ),
    ;

    /// A copy of every stored user, in no particular order.
    fn list_users(&self) -> (outcome: Result<Vec<User>, UserError>)
        requires
            self.inv(),
        ensures
            lists(self.users(), list_outcome(outcome), self.can_fail()),
    ;
}

} // verus!
