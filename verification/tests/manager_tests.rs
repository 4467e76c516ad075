use user_directory::{User, UserCache, UserError, UserManager, UserService, UserServiceImpl};

fn user(name: &str, email: &str) -> User {
    User::new(name.to_string(), email.to_string())
}

fn manager_with(names: &[&str]) -> UserManager<UserServiceImpl> {
    let mut manager = UserManager::new(UserServiceImpl::new());
    for name in names {
        manager.create_user(user(name, &format!("{}@example.com", name))).unwrap();
    }
    manager
}

#[test]
fn miss_on_an_empty_store_returns_nothing_and_caches_nothing() {
    let mut manager = UserManager::new(UserServiceImpl::new());
    assert!(manager.get_user_cached(5).unwrap().is_none());
    assert!(!manager.is_cached(5));
}

#[test]
fn miss_fetches_from_the_service_and_caches() {
    let mut manager = manager_with(&["john"]);
    assert!(!manager.is_cached(1));
    let found = manager.get_user_cached(1).unwrap().unwrap();
    assert_eq!(found.id, 1);
    assert_eq!(found.name, "john");
    assert!(manager.is_cached(1));
    assert!(!manager.is_cached(2));
}

#[test]
fn hit_returns_the_cached_value_without_asking_the_service() {
    let mut manager = manager_with(&["john"]);
    manager.get_user_cached(1).unwrap();
    let mut changed = manager.service().get_user(1).unwrap().unwrap();
    changed.name = "johnny".to_string();
    manager.service_mut().update_user(changed).unwrap();
    assert_eq!(manager.get_user_cached(1).unwrap().unwrap().name, "john");
    assert_eq!(manager.service().get_user(1).unwrap().unwrap().name, "johnny");
}

#[test]
fn read_after_update_and_invalidation_shows_the_update() {
    let mut manager = manager_with(&["john"]);
    manager.get_user_cached(1).unwrap();
    let mut changed = manager.service().get_user(1).unwrap().unwrap();
    changed.name = "johnny".to_string();
    manager.service_mut().update_user(changed).unwrap();
    manager.invalidate_cache(1);
    assert!(!manager.is_cached(1));
    assert_eq!(manager.get_user_cached(1).unwrap().unwrap().name, "johnny");
    assert!(manager.is_cached(1));
}

#[test]
fn update_through_the_manager_invalidates() {
    let mut manager = manager_with(&["john", "jane"]);
    manager.get_user_cached(1).unwrap();
    manager.get_user_cached(2).unwrap();
    let mut changed = manager.get_user_cached(1).unwrap().unwrap();
    changed.email = "new@example.com".to_string();
    let stored = manager.update_user(changed).unwrap();
    assert_eq!(stored.email, "new@example.com");
    assert!(!manager.is_cached(1));
    assert!(manager.is_cached(2));
    assert_eq!(manager.get_user_cached(1).unwrap().unwrap().email, "new@example.com");
}

#[test]
fn failed_update_through_the_manager_leaves_the_cache() {
    let mut manager = manager_with(&["john"]);
    manager.get_user_cached(1).unwrap();
    let mut invalid = manager.get_user_cached(1).unwrap().unwrap();
    invalid.name = "".to_string();
    assert!(matches!(manager.update_user(invalid), Err(UserError::InvalidInput(_))));
    assert!(manager.is_cached(1));
    let mut stranger = user("x", "x@x");
    stranger.id = 9;
    assert!(matches!(manager.update_user(stranger), Err(UserError::NotFound)));
    assert_eq!(manager.get_user_cached(1).unwrap().unwrap().name, "john");
}

#[test]
fn delete_through_the_manager_invalidates() {
    let mut manager = manager_with(&["john"]);
    manager.get_user_cached(1).unwrap();
    manager.delete_user(1).unwrap();
    assert!(!manager.is_cached(1));
    assert!(manager.get_user_cached(1).unwrap().is_none());
    assert!(!manager.is_cached(1));
    assert!(matches!(manager.delete_user(1), Err(UserError::NotFound)));
}

#[test]
fn delete_past_the_manager_leaves_a_stale_entry_until_invalidated() {
    let mut manager = manager_with(&["john"]);
    manager.get_user_cached(1).unwrap();
    manager.service_mut().delete_user(1).unwrap();
    assert_eq!(manager.get_user_cached(1).unwrap().unwrap().name, "john");
    manager.invalidate_cache(1);
    assert!(manager.get_user_cached(1).unwrap().is_none());
}

#[test]
fn create_through_the_manager_does_not_cache() {
    let mut manager = UserManager::new(UserServiceImpl::new());
    let created = manager.create_user(user("john", "john@example.com")).unwrap();
    assert_eq!(created.id, 1);
    assert!(!manager.is_cached(1));
    assert!(matches!(
        manager.create_user(user("", "john@example.com")),
        Err(UserError::InvalidInput(_))
    ));
}

#[test]
fn invalidation_of_an_absent_entry_does_nothing() {
    let mut manager = manager_with(&["john"]);
    manager.get_user_cached(1).unwrap();
    manager.invalidate_cache(2);
    assert!(manager.is_cached(1));
    manager.invalidate_cache(1);
    manager.invalidate_cache(1);
    assert!(!manager.is_cached(1));
}

#[test]
fn clear_empties_the_cache_and_leaves_the_service() {
    let mut manager = manager_with(&["john", "jane", "joe"]);
    manager.get_user_cached(1).unwrap();
    manager.get_user_cached(3).unwrap();
    manager.clear_cache();
    assert!(!manager.is_cached(1));
    assert!(!manager.is_cached(3));
    assert_eq!(manager.service().list_users().unwrap().len(), 3);
    assert_eq!(manager.get_user_cached(3).unwrap().unwrap().name, "joe");
}

#[test]
fn second_fetch_of_the_same_user_overwrites_with_the_same_value() {
    let mut cache = UserCache::new();
    let mut john = user("john", "john@example.com");
    john.id = 1;
    let first = cache.resolve_miss(1, Ok(Some(john.clone()))).unwrap().unwrap();
    let second = cache.resolve_miss(1, Ok(Some(john))).unwrap().unwrap();
    assert_eq!(first.name, second.name);
    assert_eq!(cache.lookup(1).unwrap().name, "john");
}

#[test]
fn cache_takes_in_only_users_that_were_found() {
    let mut cache = UserCache::new();
    assert!(cache.lookup(1).is_none());
    assert!(cache.resolve_miss(1, Ok(None)).unwrap().is_none());
    assert!(!cache.contains(1));
    assert!(matches!(cache.resolve_miss(1, Err(UserError::NotFound)), Err(UserError::NotFound)));
    assert!(!cache.contains(1));
    let mut john = user("john", "john@example.com");
    john.id = 1;
    let handed_on = cache.resolve_miss(1, Ok(Some(john))).unwrap().unwrap();
    assert_eq!(handed_on.name, "john");
    assert!(cache.contains(1));
    assert!(!cache.contains(2));
    cache.invalidate(1);
    assert!(cache.lookup(1).is_none());
    cache.clear();
    assert!(!cache.contains(1));
}
