use crate::error::{UserError, UserErrorView};
use crate::service::{consistent, found_view, lookup, unit_outcome, user_outcome, views, UserService};
use crate::user::{is_valid, validation_failure, User, UserView};
use std::collections::HashMap;
use vstd::prelude::*;
use vstd::std_specs::hash::spec_hash_map_iter;
use vstd::std_specs::iter::IteratorSpec;

verus! {

broadcast use vstd::std_specs::hash::group_hash_axioms;

/// What the in-memory store holds: the users by identifier, and the
/// identifier that the next created user gets.
pub struct StoreState {
    pub users: Map<u32, UserView>,
    pub next_id: nat,
}

impl StoreState {
    /// A store without users, which gives out identifiers from 1.
    pub open spec fn empty() -> StoreState {
        StoreState { users: Map::empty(), next_id: 1 }
    }

    /// The users are consistent, and every identifier in use lies below the
    /// next one to give out, which is at least 1 and fits an identifier.
    pub open spec fn wf(self) -> bool {
        &&& consistent(self.users)
        &&& 1 <= self.next_id <= u32::MAX
        &&& forall|id: u32| #[trigger] self.users.contains_key(id) ==> id < self.next_id
    }

    /// Whether the next identifier can be given out and still leave a
    /// successor for the counter.
    pub open spec fn has_room(self) -> bool {
        self.next_id < u32::MAX
    }

    /// What a lookup of `id` finds.
    pub open spec fn get(self, id: u32) -> Option<UserView> {
        lookup(self.users, id)
    }

    /// The store after an attempt to create `user`, and the attempt's
    /// outcome. A valid record is stored under the next identifier, and the
    /// counter moves on by one; an invalid one changes nothing.
    pub open spec fn create(self, user: UserView) -> (StoreState, Result<UserView, UserErrorView>) {
        match validation_failure(user) {
            Some(reason) => (self, Err(UserErrorView::InvalidInput(reason))),
            None => {
                let created = user.with_id(self.next_id as u32);
                (
                    StoreState {
                        users: self.users.insert(created.id, created),
                        next_id: self.next_id + 1,
                    },
                    Ok(created),
                )
            },
        }
    }

    /// The store after an attempt to replace the user stored under
    /// `user.id`, and the attempt's outcome. The record is validated first,
    /// then looked for; the counter stays.
    pub open spec fn update(self, user: UserView) -> (StoreState, Result<UserView, UserErrorView>) {
        match validation_failure(user) {
            Some(reason) => (self, Err(UserErrorView::InvalidInput(reason))),
            None => if self.users.contains_key(user.id) {
                (StoreState { users: self.users.insert(user.id, user), ..self }, Ok(user))
            } else {
                (self, Err(UserErrorView::NotFound))
            },
        }
    }

    /// The store after an attempt to remove the user stored under `id`, and
    /// the attempt's outcome. The counter stays.
    pub open spec fn delete(self, id: u32) -> (StoreState, Result<(), UserErrorView>) {
        if self.users.contains_key(id) {
            (StoreState { users: self.users.remove(id), ..self }, Ok(()))
        } else {
            (self, Err(UserErrorView::NotFound))
        }
    }
}

/// A request that changes the store.
pub enum Request {
    Create(UserView),
    Update(UserView),
    Delete(u32),
}

impl StoreState {
    /// The store after a request, whether it succeeded or not.
    pub open spec fn apply(self, request: Request) -> StoreState {
        match request {
            Request::Create(user) => self.create(user).0,
            Request::Update(user) => self.update(user).0,
            Request::Delete(id) => self.delete(id).0,
        }
    }

    /// The identifier that a request is given: the identifier of the user it
    /// created, and none for any other request or a failed one.
    pub open spec fn issued(self, request: Request) -> Option<u32> {
        match request {
            Request::Create(user) => match self.create(user).1 {
                Ok(created) => Some(created.id),
                Err(_) => None,
            },
            _ => None,
        }
    }

    /// Whether the requests can be made one after the other, from this
    /// store on: each `Create` among them must find room.
    pub open spec fn accepts(self, requests: Seq<Request>) -> bool
        decreases requests.len(),
    {
        if requests.len() == 0 {
            true
        } else {
            &&& requests[0] is Create ==> self.has_room()
            &&& self.apply(requests[0]).accepts(requests.drop_first())
        }
    }

    /// The store after a sequence of requests.
    pub open spec fn apply_all(self, requests: Seq<Request>) -> StoreState
        decreases requests.len(),
    {
        if requests.len() == 0 {
            self
        } else {
            self.apply(requests[0]).apply_all(requests.drop_first())
        }
    }

    /// The identifiers given out in the course of a sequence of requests, in
    /// the order of the requests.
    pub open spec fn identifiers(self, requests: Seq<Request>) -> Seq<u32>
        decreases requests.len(),
    {
        if requests.len() == 0 {
            Seq::empty()
        } else {
            let rest = self.apply(requests[0]).identifiers(requests.drop_first());
            match self.issued(requests[0]) {
                Some(id) => seq![id] + rest,
                None => rest,
            }
        }
    }

    /// A request made of a well-formed store leaves a well-formed store, and
    /// the counter never goes back. A request that is given an identifier is
    /// given the counter's value and moves the counter on by one.
    pub proof fn lemma_apply(self, request: Request)
        requires
            self.wf(),
            request is Create ==> self.has_room(),
        ensures
            self.apply(request).wf(),
            self.apply(request).next_id >= self.next_id,
            self.issued(request) matches Some(id) ==> id == self.next_id && self.apply(
                request,
            ).next_id == self.next_id + 1,
    {
        match request {
            Request::Create(user) => {
                if validation_failure(user) is None {
                    let created = user.with_id(self.next_id as u32);
                    let after = self.create(user).0;
                    assert(is_valid(created));
                    assert forall|id: u32| #[trigger] after.users.contains_key(id) implies id > 0
                        && after.users[id].id == id && is_valid(after.users[id]) && id
                        < after.next_id by {
                        if id != created.id {
                            assert(self.users.contains_key(id));
                        }
                    }
                }
            },
            Request::Update(user) => {
                if validation_failure(user) is None && self.users.contains_key(user.id) {
                    let after = self.update(user).0;
                    assert forall|id: u32| #[trigger] after.users.contains_key(id) implies id > 0
                        && after.users[id].id == id && is_valid(after.users[id]) && id
                        < after.next_id by {
                        assert(self.users.contains_key(id));
                    }
                }
            },
            Request::Delete(id) => {
                let after = self.delete(id).0;
                assert forall|other: u32| #[trigger] after.users.contains_key(other) implies other
                    > 0 && after.users[other].id == other && is_valid(after.users[other]) && other
                    < after.next_id by {
                    assert(self.users.contains_key(other));
                }
            },
        }
    }

    /// A user that was created is found under the identifier it was given,
    /// with the name, the email and the credential it was created with.
    pub proof fn lemma_created_user_is_found(self, user: UserView)
        requires
            self.wf(),
            self.has_room(),
            is_valid(user),
        ensures
            self.create(user).1 matches Ok(created) && {
                &&& created.name == user.name
                &&& created.email == user.email
                &&& created.credential == user.credential
                &&& created.id == self.next_id
                &&& self.get(created.id) is None
                &&& self.create(user).0.get(created.id) == Some(created)
            },
    {
        let created = user.with_id(self.next_id as u32);
        if self.users.contains_key(created.id) {
            assert(created.id < self.next_id);
        }
    }

    /// The identifiers given out in the course of any sequence of requests
    /// rise strictly, start no lower than the counter stood before, and end
    /// below where it stands after. So no identifier is given out twice, and
    /// none that is or ever was in use is given out again, whatever is
    /// deleted in between.
    pub proof fn lemma_identifiers_rise(self, requests: Seq<Request>)
        requires
            self.wf(),
            self.accepts(requests),
        ensures
            self.apply_all(requests).wf(),
            self.next_id <= self.apply_all(requests).next_id,
            forall|i: int|
                0 <= i < self.identifiers(requests).len() ==> self.next_id
                    <= #[trigger] self.identifiers(requests)[i] < self.apply_all(
                    requests,
                ).next_id,
            forall|i: int, j: int|
                0 <= i < j < self.identifiers(requests).len() ==> self.identifiers(requests)[i]
                    < self.identifiers(requests)[j],
        decreases requests.len(),
    {
        if requests.len() > 0 {
            let next = self.apply(requests[0]);
            let rest = requests.drop_first();
            self.lemma_apply(requests[0]);
            next.lemma_identifiers_rise(rest);
            let tail = next.identifiers(rest);
            let all = self.identifiers(requests);
            match self.issued(requests[0]) {
                Some(id) => {
                    assert(all == seq![id] + tail);
                    assert forall|i: int| 0 <= i < all.len() implies self.next_id <= #[trigger] all[i]
                        < self.apply_all(requests).next_id by {
                        if i > 0 {
                            assert(all[i] == tail[i - 1]);
                        }
                    }
                    assert forall|i: int, j: int| 0 <= i < j < all.len() implies all[i] < all[j] by {
                        assert(all[j] == tail[j - 1]);
                        if i > 0 {
                            assert(all[i] == tail[i - 1]);
                        }
                    }
                },
                None => {},
            }
        }
    }

    /// An update of a user that is not stored fails and changes nothing; it
    /// fails with `NotFound` where the record is valid, and with
    /// `InvalidInput` where it is not, since the record is validated first.
    pub proof fn lemma_update_of_missing_user(self, user: UserView)
        requires
            !self.users.contains_key(user.id),
        ensures
            self.update(user).0 == self,
            self.update(user).1 is Err,
            is_valid(user) ==> self.update(user).1 == Err::<UserView, UserErrorView>(
                UserErrorView::NotFound,
            ),
            !is_valid(user) ==> self.update(user).1->Err_0 is InvalidInput,
    {
    }

    /// A deletion of a user that is not stored fails with `NotFound` and
    /// changes nothing. A deletion of a stored user succeeds; afterwards a
    /// lookup of that identifier finds nothing, and a lookup of any other
    /// finds what it found before.
    pub proof fn lemma_delete(self, id: u32)
        ensures
            !self.users.contains_key(id) ==> self.delete(id) == (
                self,
                Err::<(), UserErrorView>(UserErrorView::NotFound),
            ),
            self.users.contains_key(id) ==> self.delete(id).1 == Ok::<(), UserErrorView>(()),
            self.users.contains_key(id) ==> self.delete(id).0.get(id) is None,
            forall|other: u32| other != id ==> self.delete(id).0.get(other) == self.get(other),
    {
    }
}

/// The store of users in memory: a map from identifier to user, and a counter
/// from which identifiers are given out in rising order and never again.
pub struct UserServiceImpl {
    users: HashMap<u32, User>,
    next_id: u32,
}

impl View for UserServiceImpl {
    type V = StoreState;

    closed spec fn view(&self) -> StoreState {
        StoreState {
            users: self.users@.map_values(|user: User| user@),
            next_id: self.next_id as nat,
        }
    }
}

impl UserServiceImpl {
    /// An empty store.
    pub fn new() -> (store: UserServiceImpl)
        ensures
            store@ == StoreState::empty(),
            store.inv(),
            store.has_room(),
    {
        let store = UserServiceImpl { users: HashMap::new(), next_id: 1 };
        assert(store@.users =~= Map::<u32, UserView>::empty());
        store
    }

    /// Takes the next identifier from the counter.
    fn next_user_id(&mut self) -> (id: u32)
        requires
            old(self)@.has_room(),
        ensures
            id == old(self)@.next_id,
            final(self)@ == (StoreState { next_id: old(self)@.next_id + 1, ..old(self)@ }),
    {
        let id = self.next_id;
        self.next_id = self.next_id + 1;
        id
    }
}

impl UserService for UserServiceImpl {
    open spec fn users(&self) -> Map<u32, UserView> {
        self@.users
    }

    open spec fn inv(&self) -> bool {
        self@.wf()
    }

    open spec fn has_room(&self) -> bool {
        self@.has_room()
    }

    /// Nothing outside the store can make an operation on it fail.
    open spec fn can_fail(&self) -> bool {
        false
    }

    proof fn lemma_users_consistent(&self) {
    }

    fn can_create(&self) -> (room: bool) {
        self.next_id < u32::MAX
    }

    fn get_user(&self, id: u32) -> (outcome: Result<Option<User>, UserError>)
        ensures
            outcome is Ok,
            found_view(outcome->Ok_0) == self@.get(id),
    {
        match self.users.get(&id) {
            Some(user) => Ok(Some(user.clone())),
            None => Ok(None),
        }
    }

    /// The identifier given is the counter's value.
    fn create_user(&mut self, user: User) -> (outcome: Result<User, UserError>)
        ensures
            (final(self)@, user_outcome(outcome)) == old(self)@.create(user@),
    {
        let mut user = user;
        match user.validate() {
            Err(error) => {
                return Err(error);
            },
            Ok(()) => {},
        }
        let id = self.next_user_id();
        user.id = id;
        self.users.insert(id, user.clone());
        assert(self@.users =~= old(self)@.users.insert(id, user@));
        Ok(user)
    }

    fn update_user(&mut self, user: User) -> (outcome: Result<User, UserError>)
        ensures
            (final(self)@, user_outcome(outcome)) == old(self)@.update(user@),
    {
        match user.validate() {
            Err(error) => {
                return Err(error);
            },
            Ok(()) => {},
        }
        if self.users.contains_key(&user.id) {
            self.users.insert(user.id, user.clone());
            proof {
                assert(old(self)@.users.contains_key(user.id));
                assert(self@.users =~= old(self)@.users.insert(user.id, user@));
            }
            Ok(user)
        } else {
            Err(UserError::NotFound)
        }
    }

    fn delete_user(&mut self, id: u32) -> (outcome: Result<(), UserError>)
        ensures
            (final(self)@, unit_outcome(outcome)) == old(self)@.delete(id),
    {
        match self.users.remove(&id) {
            Some(_) => {
                assert(self@.users =~= old(self)@.users.remove(id));
                Ok(())
            },
            None => {
                assert(self@.users =~= old(self)@.users);
                Err(UserError::NotFound)
            },
        }
    }

    fn list_users(&self) -> (outcome: Result<Vec<User>, UserError>) {
        let mut list: Vec<User> = Vec::new();
        for entry in it: self.users.iter()
            invariant
                it.seq() == spec_hash_map_iter(&self.users).remaining(),
                it.seq().no_duplicates(),
                list@.len() == it.index(),
                forall|i: int|
                    0 <= i < list@.len() ==> (#[trigger] list@[i])@ == (*it.seq()[i].1)@,
        {
            list.push(entry.1.clone());
        }
        proof {
            let entries = spec_hash_map_iter(&self.users).remaining();
            let listed = views(list@);
            let users = self@.users;
            assert(listed.len() == users.dom().len()) by {
                assert(users.dom() =~= self.users@.dom());
            }
            assert forall|i: int| 0 <= i < listed.len() implies users.contains_key(
                #[trigger] listed[i].id,
            ) && users[listed[i].id] == listed[i] && listed[i].id == *entries[i].0 by {
                let key = *entries[i].0;
                assert(self.users@.contains_key(key));
                assert(users.contains_key(key));
                assert(listed[i] == list@[i]@);
            }
            assert forall|i: int, j: int| 0 <= i < j < listed.len() implies #[trigger] listed[i].id
                != #[trigger] listed[j].id by {
                if listed[i].id == listed[j].id {
                    assert(*entries[i].0 == *entries[j].0);
                    assert(*entries[i].1 == *entries[j].1);
                    assert(entries[i] == entries[j]);
                }
            }
            assert forall|id: u32| #[trigger] users.contains_key(id) implies exists|i: int|
                0 <= i < listed.len() && #[trigger] listed[i].id == id by {
                assert(self.users@.contains_key(id));
                assert(entries.contains((&id, &self.users@[id])));
                let i: int = choose|i: int|
                    0 <= i < entries.len() && entries[i] == (&id, &self.users@[id]);
                assert(listed[i].id == id);
            }
        }
        Ok(list)
    }
}

} // verus!
