use user_directory::{User, UserError, UserService, UserServiceImpl};

fn user(name: &str, email: &str) -> User {
    User::new(name.to_string(), email.to_string())
}

fn ids(store: &UserServiceImpl) -> Vec<u32> {
    let mut ids: Vec<u32> = store.list_users().unwrap().iter().map(|user| user.id).collect();
    ids.sort();
    ids
}

#[test]
fn test_user_creation() {
    let mut service = UserServiceImpl::new();
    let user = User::new("John Doe".to_string(), "john@example.com".to_string());

    let created_user = service.create_user(user).unwrap();
    assert_eq!(created_user.name, "John Doe");
    assert_eq!(created_user.email, "john@example.com");
    assert!(created_user.id > 0);
}

#[test]
fn first_user_gets_one_and_second_gets_two() {
    let mut store = UserServiceImpl::new();
    let first = store.create_user(user("John Doe", "john@example.com")).unwrap();
    assert_eq!(first.id, 1);
    assert_eq!(first.name, "John Doe");
    assert_eq!(first.email, "john@example.com");
    let second = store.create_user(user("Jane Doe", "jane@example.com")).unwrap();
    assert_eq!(second.id, 2);
}

#[test]
fn created_user_is_found_with_its_fields() {
    let mut store = UserServiceImpl::new();
    let mut new_user = user("John Doe", "john@example.com");
    new_user.set_password("secret");
    let created = store.create_user(new_user).unwrap();
    let found = store.get_user(created.id).unwrap().unwrap();
    assert_eq!(found.id, created.id);
    assert_eq!(found.name, "John Doe");
    assert_eq!(found.email, "john@example.com");
    assert!(found.verify_password("secret"));
}

#[test]
fn identifier_of_the_record_handed_in_is_ignored() {
    let mut store = UserServiceImpl::new();
    let mut new_user = user("John", "john@example.com");
    new_user.id = 40;
    let created = store.create_user(new_user).unwrap();
    assert_eq!(created.id, 1);
    assert!(store.get_user(40).unwrap().is_none());
}

#[test]
fn get_of_an_unknown_identifier_is_no_error() {
    let store = UserServiceImpl::new();
    assert!(store.get_user(0).unwrap().is_none());
    assert!(store.get_user(1).unwrap().is_none());
    assert!(store.get_user(u32::MAX).unwrap().is_none());
}

#[test]
fn invalid_user_is_not_created_and_takes_no_identifier() {
    let mut store = UserServiceImpl::new();
    match store.create_user(user("", "john@example.com")) {
        Err(UserError::InvalidInput(reason)) => assert_eq!(reason, "Name is required"),
        other => panic!("unexpected {:?}", other),
    }
    match store.create_user(user("John", "nowhere")) {
        Err(UserError::InvalidInput(reason)) => assert_eq!(reason, "Invalid email format"),
        other => panic!("unexpected {:?}", other),
    }
    assert!(store.list_users().unwrap().is_empty());
    let created = store.create_user(user("John", "john@example.com")).unwrap();
    assert_eq!(created.id, 1);
}

#[test]
fn identifiers_rise_and_are_not_given_again_after_a_deletion() {
    let mut store = UserServiceImpl::new();
    let a = store.create_user(user("A", "a@x")).unwrap().id;
    let b = store.create_user(user("B", "b@x")).unwrap().id;
    store.delete_user(b).unwrap();
    let c = store.create_user(user("C", "c@x")).unwrap().id;
    store.delete_user(a).unwrap();
    store.delete_user(c).unwrap();
    let d = store.create_user(user("D", "d@x")).unwrap().id;
    assert_eq!((a, b, c, d), (1, 2, 3, 4));
    assert_eq!(ids(&store), vec![4]);
}

#[test]
fn update_replaces_the_stored_user() {
    let mut store = UserServiceImpl::new();
    let mut stored = store.create_user(user("John", "john@example.com")).unwrap();
    stored.name = "Johnny".to_string();
    stored.email = "johnny@example.com".to_string();
    let returned = store.update_user(stored).unwrap();
    assert_eq!(returned.id, 1);
    assert_eq!(returned.name, "Johnny");
    let found = store.get_user(1).unwrap().unwrap();
    assert_eq!(found.name, "Johnny");
    assert_eq!(found.email, "johnny@example.com");
    assert_eq!(ids(&store), vec![1]);
}

#[test]
fn update_of_an_unknown_identifier_is_not_found_and_changes_nothing() {
    let mut store = UserServiceImpl::new();
    store.create_user(user("John", "john@example.com")).unwrap();
    let mut stranger = user("Jane", "jane@example.com");
    stranger.id = 2;
    assert!(matches!(store.update_user(stranger), Err(UserError::NotFound)));
    let unassigned = user("Jane", "jane@example.com");
    assert!(matches!(store.update_user(unassigned), Err(UserError::NotFound)));
    assert_eq!(ids(&store), vec![1]);
    assert_eq!(store.get_user(1).unwrap().unwrap().name, "John");
    assert!(store.get_user(2).unwrap().is_none());
    assert_eq!(store.create_user(user("Next", "n@x")).unwrap().id, 2);
}

#[test]
fn update_validates_before_it_looks_for_the_user() {
    let mut store = UserServiceImpl::new();
    let mut stored = store.create_user(user("John", "john@example.com")).unwrap();
    stored.email = "".to_string();
    match store.update_user(stored) {
        Err(UserError::InvalidInput(reason)) => assert_eq!(reason, "Email is required"),
        other => panic!("unexpected {:?}", other),
    }
    assert_eq!(store.get_user(1).unwrap().unwrap().email, "john@example.com");
    let mut stranger = user("", "jane@example.com");
    stranger.id = 9;
    match store.update_user(stranger) {
        Err(UserError::InvalidInput(reason)) => assert_eq!(reason, "Name is required"),
        other => panic!("unexpected {:?}", other),
    }
}

#[test]
fn delete_removes_the_user_and_only_that_one() {
    let mut store = UserServiceImpl::new();
    store.create_user(user("A", "a@x")).unwrap();
    store.create_user(user("B", "b@x")).unwrap();
    assert!(store.delete_user(1).is_ok());
    assert!(store.get_user(1).unwrap().is_none());
    assert_eq!(store.get_user(2).unwrap().unwrap().name, "B");
    assert_eq!(ids(&store), vec![2]);
}

#[test]
fn delete_of_an_unknown_identifier_is_not_found_and_changes_nothing() {
    let mut store = UserServiceImpl::new();
    assert!(matches!(store.delete_user(1), Err(UserError::NotFound)));
    store.create_user(user("A", "a@x")).unwrap();
    assert!(matches!(store.delete_user(2), Err(UserError::NotFound)));
    assert!(matches!(store.delete_user(0), Err(UserError::NotFound)));
    assert_eq!(ids(&store), vec![1]);
    store.delete_user(1).unwrap();
    assert!(matches!(store.delete_user(1), Err(UserError::NotFound)));
}

#[test]
fn list_holds_every_user_once() {
    let mut store = UserServiceImpl::new();
    assert!(store.list_users().unwrap().is_empty());
    for i in 0..20 {
        store.create_user(user(&format!("user{}", i), &format!("u{}@x", i))).unwrap();
    }
    store.delete_user(7).unwrap();
    let list = store.list_users().unwrap();
    assert_eq!(list.len(), 19);
    let mut expected: Vec<u32> = (1..=20).collect();
    expected.retain(|id| *id != 7);
    assert_eq!(ids(&store), expected);
    for listed in list {
        assert_eq!(listed.name, format!("user{}", listed.id - 1));
        assert_eq!(listed.email, format!("u{}@x", listed.id - 1));
    }
}

#[test]
fn list_is_a_copy() {
    let mut store = UserServiceImpl::new();
    store.create_user(user("A", "a@x")).unwrap();
    let mut list = store.list_users().unwrap();
    list[0].name = "changed".to_string();
    assert_eq!(store.get_user(1).unwrap().unwrap().name, "A");
}

#[test]
fn a_new_store_has_room() {
    let mut store = UserServiceImpl::new();
    assert!(store.can_create());
    store.create_user(user("A", "a@x")).unwrap();
    assert!(store.can_create());
}
