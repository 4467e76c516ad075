use crate::error::{UserError, UserErrorView};
use crate::service::{
    creates, deletes, found_outcome, found_view, is_backend_failure, lookup, unit_outcome,
    updates, user_outcome, UserService,
};
use crate::user::{User, UserView};
use std::collections::HashMap;
use vstd::prelude::*;

verus! {

broadcast use vstd::std_specs::hash::group_hash_axioms;

/// What a read through the cache returns where `users` are stored: the cached
/// value where there is one, whatever is stored by now; else what is stored.
pub open spec fn cached_read(
    cache: Map<u32, UserView>,
    users: Map<u32, UserView>,
    id: u32,
) -> Option<UserView> {
    if cache.contains_key(id) {
        Some(cache[id])
    } else {
        lookup(users, id)
    }
}

/// The cache after a read through it: a user that was fetched from the store
/// on a miss is now cached.
pub open spec fn cache_after_read(
    cache: Map<u32, UserView>,
    users: Map<u32, UserView>,
    id: u32,
) -> Map<u32, UserView> {
    if !cache.contains_key(id) && users.contains_key(id) {
        cache.insert(id, users[id])
    } else {
        cache
    }
}

/// Every cached user is stored, and as it is cached.
pub open spec fn coherent(cache: Map<u32, UserView>, users: Map<u32, UserView>) -> bool {
    forall|id: u32| #[trigger] cache.contains_key(id) ==> lookup(users, id) == Some(cache[id])
}

/// What a lookup that missed the cache comes to, given what the fetch from
/// the service returned: a user that was found is cached under `id`; nothing
/// found, or a failure, leaves the cache as it was. The outcome is the
/// fetch's own.
pub open spec fn cache_after_fetch(
    cache: Map<u32, UserView>,
    id: u32,
    fetched: Result<Option<UserView>, UserErrorView>,
) -> Map<u32, UserView> {
    match fetched {
        Ok(Some(user)) => cache.insert(id, user),
        _ => cache,
    }
}

/// While the cache is coherent, a read through it returns what is stored,
/// and leaves the cache coherent.
pub proof fn lemma_coherent_read(cache: Map<u32, UserView>, users: Map<u32, UserView>, id: u32)
    requires
        coherent(cache, users),
    ensures
        cached_read(cache, users, id) == lookup(users, id),
        coherent(cache_after_read(cache, users, id), users),
{
    let after = cache_after_read(cache, users, id);
    assert forall|other: u32| #[trigger] after.contains_key(other) implies lookup(users, other)
        == Some(after[other]) by {
        if other != id {
            assert(cache.contains_key(other));
        } else if cache.contains_key(id) {
        }
    }
}

/// A read shows an update that was followed by the invalidation of its
/// identifier: whatever the cache held, and whether or not an earlier read
/// had cached the user, after the update of a stored user and the
/// invalidation of its identifier a read returns the updated user, and
/// caches it.
pub proof fn lemma_read_after_update(
    cache: Map<u32, UserView>,
    users: Map<u32, UserView>,
    updated: UserView,
)
    requires
        users.contains_key(updated.id),
    ensures
        ({
            let id = updated.id;
            let cache_then = cache_after_read(cache, users, id);
            let users_now = users.insert(id, updated);
            let cache_now = cache_then.remove(id);
            &&& cache_then.contains_key(id)
            &&& cached_read(cache_now, users_now, id) == Some(updated)
            &&& cache_after_read(cache_now, users_now, id)[id] == updated
        }),
{
}

/// A read does not show a deleted user once the deletion was followed by the
/// invalidation of its identifier.
pub proof fn lemma_read_after_delete(
    cache: Map<u32, UserView>,
    users: Map<u32, UserView>,
    id: u32,
)
    ensures
        cached_read(cache.remove(id), users.remove(id), id) is None,
        !cache_after_read(cache.remove(id), users.remove(id), id).contains_key(id),
{
}

/// A miss on a user that is not stored caches nothing.
pub proof fn lemma_miss_caches_nothing(
    cache: Map<u32, UserView>,
    users: Map<u32, UserView>,
    id: u32,
)
    requires
        !cache.contains_key(id),
        !users.contains_key(id),
    ensures
        cached_read(cache, users, id) is None,
        cache_after_read(cache, users, id) == cache,
{
}

/// A write to the store that is followed by the invalidation of the
/// identifier written to keeps the cache coherent. So does the creation of a
/// user, without any invalidation, since its identifier was not in use.
pub proof fn lemma_writes_keep_coherence(
    cache: Map<u32, UserView>,
    users: Map<u32, UserView>,
    user: UserView,
)
    requires
        coherent(cache, users),
    ensures
        coherent(cache.remove(user.id), users.insert(user.id, user)),
        coherent(cache.remove(user.id), users.remove(user.id)),
        coherent(cache.remove(user.id), users),
        !users.contains_key(user.id) ==> coherent(cache, users.insert(user.id, user)),
{
    assert forall|id: u32| #[trigger] cache.remove(user.id).contains_key(id) implies lookup(
        users.insert(user.id, user),
        id,
    ) == Some(cache.remove(user.id)[id]) && lookup(users.remove(user.id), id) == Some(
        cache.remove(user.id)[id],
    ) && lookup(users, id) == Some(cache.remove(user.id)[id]) by {
        assert(cache.contains_key(id));
    }
    if !users.contains_key(user.id) {
        assert forall|id: u32| #[trigger] cache.contains_key(id) implies lookup(
            users.insert(user.id, user),
            id,
        ) == Some(cache[id]) by {
            assert(lookup(users, id) == Some(cache[id]));
        }
    }
}

/// The last value read of each user, by identifier. It serves to answer
/// reads sooner and is never the record of what is stored: an entry may be
/// missing or out of date.
pub struct UserCache {
    entries: HashMap<u32, User>,
}

impl View for UserCache {
    type V = Map<u32, UserView>;

    closed spec fn view(&self) -> Map<u32, UserView> {
        self.entries@.map_values(|user: User| user@)
    }
}

impl UserCache {
    /// An empty cache.
    pub fn new() -> (cache: UserCache)
        ensures
            cache@ == Map::<u32, UserView>::empty(),
    {
        let cache = UserCache { entries: HashMap::new() };
        assert(cache@ =~= Map::<u32, UserView>::empty());
        cache
    }

    /// A copy of the user cached under `id`, if there is one.
    pub fn lookup(&self, id: u32) -> (hit: Option<User>)
        ensures
            found_view(hit) == lookup(self@, id),
    {
        match self.entries.get(&id) {
            Some(user) => Some(user.clone()),
            None => None,
        }
    }

    /// Ends a lookup of `id` that missed the cache, with what the fetch from
    /// the service returned: caches the user if one was found, and hands the
    /// fetch's outcome on.
    pub fn resolve_miss(&mut self, id: u32, fetched: Result<Option<User>, UserError>) -> (outcome: Result<
        Option<User>,
        UserError,
    >)
        ensures
            found_outcome(outcome) == found_outcome(fetched),
            final(self)@ == cache_after_fetch(old(self)@, id, found_outcome(fetched)),
    {
        match fetched {
            Ok(Some(user)) => {
                self.entries.insert(id, user.clone());
                assert(self@ =~= old(self)@.insert(id, user@));
                Ok(Some(user))
            },
            Ok(None) => Ok(None),
            Err(error) => Err(error),
        }
    }

    /// Whether a user is cached under `id`.
    pub fn contains(&self, id: u32) -> (cached: bool)
        ensures
            cached == self@.contains_key(id),
    {
        self.entries.contains_key(&id)
    }

    /// Forgets what is cached under `id`, if anything.
    pub fn invalidate(&mut self, id: u32)
        ensures
            final(self)@ == old(self)@.remove(id),
    {
        self.entries.remove(&id);
        assert(self@ =~= old(self)@.remove(id));
    }

    /// Forgets everything.
    pub fn clear(&mut self)
        ensures
            final(self)@ == Map::<u32, UserView>::empty(),
    {
        self.entries.clear();
        assert(self@ =~= Map::<u32, UserView>::empty());
    }
}

/// A service together with a cache of what was read from it.
///
/// Reads go through the cache. An update or a deletion made through the
/// manager is followed, where it succeeded, by the invalidation of its
/// identifier, so that the cache stays coherent with the service. A write
/// made past the manager, through `service_mut`, leaves the invalidation to
/// the caller; until then a read may return what was cached before.
pub struct UserManager<T: UserService> {
    service: T,
    cache: UserCache,
}

impl<T: UserService> UserManager<T> {
    /// The service behind the cache.
    pub closed spec fn backend(&self) -> T {
        self.service
    }

    /// What is cached.
    pub closed spec fn cached(&self) -> Map<u32, UserView> {
        self.cache@
    }

    /// What the service holds.
    pub open spec fn users(&self) -> Map<u32, UserView> {
        self.backend().users()
    }

    /// The service is well-formed.
    pub open spec fn inv(&self) -> bool {
        self.backend().inv()
    }

    /// Every cached user is stored in the service, and as it is cached.
    pub open spec fn is_coherent(&self) -> bool {
        coherent(self.cached(), self.users())
    }

    /// A manager of `service` with an empty cache.
    pub fn new(service: T) -> (manager: UserManager<T>)
        ensures
            manager.backend() == service,
            manager.cached() == Map::<u32, UserView>::empty(),
            manager.is_coherent(),
    {
        UserManager { service, cache: UserCache::new() }
    }

    /// The service, for reads that bypass the cache.
    pub fn service(&self) -> (service: &T)
        ensures
            *service == self.backend(),
    {
        &self.service
    }

    /// The service, for writes that go past the manager. The cache is left
    /// as it is: whoever updates or deletes a user this way has to invalidate
    /// its identifier afterwards, or reads may return what was cached before.
    pub fn service_mut(&mut self) -> (service: &mut T)
        ensures
            *service == old(self).backend(),
            final(self).backend() == *final(service),
            final(self).cached() == old(self).cached(),
    {
        &mut self.service
    }

    /// Whether a user is cached under `id`.
    pub fn is_cached(&self, id: u32) -> (cached: bool)
        ensures
            cached == self.cached().contains_key(id),
    {
        self.cache.contains(id)
    }

    /// The user under `id`, from the cache where it is cached, whatever the
    /// service holds by now, and else from the service. A user fetched from
    /// the service is cached.
    pub fn get_user_cached(&mut self, id: u32) -> (outcome: Result<Option<User>, UserError>)
        requires
            old(self).inv(),
        ensures
            final(self).backend() == old(self).backend(),
            match outcome {
                Ok(found) => {
                    &&& found_view(found) == cached_read(old(self).cached(), old(self).users(), id)
                    &&& final(self).cached() == cache_after_read(
                        old(self).cached(),
                        old(self).users(),
                        id,
                    )
                },
                Err(error) => {
                    &&& !old(self).cached().contains_key(id)
                    &&& is_backend_failure(error@, old(self).backend().can_fail())
                    &&& final(self).cached() == old(self).cached()
                },
            },
            old(self).is_coherent() ==> final(self).is_coherent(),
    {
        proof {
            if self.is_coherent() {
                lemma_coherent_read(self.cached(), self.users(), id);
            }
        }
        match self.cache.lookup(id) {
            Some(user) => Ok(Some(user)),
            None => {
                let fetched = self.service.get_user(id);
                self.cache.resolve_miss(id, fetched)
            },
        }
    }

    /// Forgets what is cached under `id`, if anything.
    pub fn invalidate_cache(&mut self, id: u32)
        ensures
            final(self).backend() == old(self).backend(),
            final(self).cached() == old(self).cached().remove(id),
            old(self).is_coherent() ==> final(self).is_coherent(),
    {
        self.cache.invalidate(id);
        proof {
            if old(self).is_coherent() {
                assert forall|other: u32| #[trigger]
                    self.cached().contains_key(other) implies lookup(self.users(), other) == Some(
                    self.cached()[other],
                ) by {
                    assert(old(self).cached().contains_key(other));
                }
            }
        }
    }

    /// Empties the cache.
    pub fn clear_cache(&mut self)
        ensures
            final(self).backend() == old(self).backend(),
            final(self).cached() == Map::<u32, UserView>::empty(),
            final(self).is_coherent(),
    {
        self.cache.clear();
    }

    /// Creates a user in the service. The cache is left alone: the new
    /// identifier was not in use, and a later read fetches the user.
    pub fn create_user(&mut self, user: User) -> (outcome: Result<User, UserError>)
        requires
            old(self).inv(),
            old(self).backend().has_room(),
        ensures
            final(self).inv(),
            final(self).backend().can_fail() == old(self).backend().can_fail(),
            outcome is Err ==> final(self).backend().has_room(),
            creates(
                old(self).users(),
                final(self).users(),
                user@,
                user_outcome(outcome),
                old(self).backend().can_fail(),
            ),
            final(self).cached() == old(self).cached(),
            old(self).is_coherent() ==> final(self).is_coherent(),
    {
        let outcome = self.service.create_user(user);
        proof {
            if old(self).is_coherent() && outcome is Ok {
                lemma_writes_keep_coherence(old(self).cached(), old(self).users(), outcome->Ok_0@);
            }
        }
        outcome
    }

    /// Updates a user in the service and, where that succeeded, invalidates
    /// what is cached under the user's identifier.
    pub fn update_user(&mut self, user: User) -> (outcome: Result<User, UserError>)
        requires
            old(self).inv(),
        ensures
            final(self).inv(),
            final(self).backend().can_fail() == old(self).backend().can_fail(),
            final(self).backend().has_room() == old(self).backend().has_room(),
            updates(
                old(self).users(),
                final(self).users(),
                user@,
                user_outcome(outcome),
                old(self).backend().can_fail(),
            ),
            final(self).cached() == if outcome is Ok {
                old(self).cached().remove(user.id)
            } else {
                old(self).cached()
            },
            old(self).is_coherent() ==> final(self).is_coherent(),
    {
        let id = user.id;
        let ghost record = user@;
        let outcome = self.service.update_user(user);
        if outcome.is_ok() {
            self.cache.invalidate(id);
        }
        proof {
            if old(self).is_coherent() && outcome is Ok {
                lemma_writes_keep_coherence(old(self).cached(), old(self).users(), record);
            }
        }
        outcome
    }

    /// Deletes a user from the service and, where that succeeded,
    /// invalidates what is cached under the identifier.
    pub fn delete_user(&mut self, id: u32) -> (outcome: Result<(), UserError>)
        requires
            old(self).inv(),
        ensures
            final(self).inv(),
            final(self).backend().can_fail() == old(self).backend().can_fail(),
            final(self).backend().has_room() == old(self).backend().has_room(),
            deletes(
                old(self).users(),
                final(self).users(),
                id,
                unit_outcome(outcome),
                old(self).backend().can_fail(),
            ),
            final(self).cached() == if outcome is Ok {
                old(self).cached().remove(id)
            } else {
                old(self).cached()
            },
            old(self).is_coherent() ==> final(self).is_coherent(),
    {
        let outcome = self.service.delete_user(id);
        if outcome.is_ok() {
            self.cache.invalidate(id);
        }
        proof {
            if old(self).is_coherent() && outcome is Ok {
                let record = old(self).users()[id];
                old(self).backend().lemma_users_consistent();
                lemma_writes_keep_coherence(old(self).cached(), old(self).users(), record);
            }
        }
        outcome
    }
}

} // verus!
