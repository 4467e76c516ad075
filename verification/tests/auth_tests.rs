use user_directory::auth::{authenticate_user, find_match, generate_token, validate_token, Claims};
use user_directory::utils::{format_user, generate_id, is_valid_email};
use user_directory::{User, UserService, UserServiceImpl};

fn user(name: &str, email: &str, password: &str) -> User {
    let mut user = User::new(name.to_string(), email.to_string());
    user.set_password(password);
    user
}

fn store() -> UserServiceImpl {
    let mut store = UserServiceImpl::new();
    store.create_user(user("John", "john@example.com", "secret")).unwrap();
    store.create_user(user("Jane", "jane@example.com", "hidden")).unwrap();
    store
}

#[test]
fn user_with_email_and_password_is_authenticated() {
    let store = store();
    let found = authenticate_user(&store, "jane@example.com", "hidden").unwrap().unwrap();
    assert_eq!(found.id, 2);
    assert_eq!(found.name, "Jane");
}

#[test]
fn wrong_password_or_email_authenticates_nobody() {
    let store = store();
    assert!(authenticate_user(&store, "jane@example.com", "secret").unwrap().is_none());
    assert!(authenticate_user(&store, "joe@example.com", "hidden").unwrap().is_none());
    assert!(authenticate_user(&store, "", "").unwrap().is_none());
    assert!(authenticate_user(&UserServiceImpl::new(), "jane@example.com", "hidden")
        .unwrap()
        .is_none());
}

#[test]
fn user_without_a_password_is_never_authenticated() {
    let mut store = UserServiceImpl::new();
    store
        .create_user(User::new("John".to_string(), "john@example.com".to_string()))
        .unwrap();
    assert!(authenticate_user(&store, "john@example.com", "").unwrap().is_none());
}

#[test]
fn first_match_of_a_list_is_returned() {
    let mut a = user("A", "same@example.com", "pw");
    a.id = 1;
    let mut b = user("B", "same@example.com", "other");
    b.id = 2;
    let mut c = user("C", "same@example.com", "pw");
    c.id = 3;
    let list = vec![b.clone(), a.clone(), c.clone()];
    assert_eq!(find_match(&list, "same@example.com", "pw").unwrap().id, 1);
    assert_eq!(find_match(&list, "same@example.com", "other").unwrap().id, 2);
    let list = vec![c, b, a];
    assert_eq!(find_match(&list, "same@example.com", "pw").unwrap().id, 3);
    assert!(find_match(&list, "same@example.com", "none").is_none());
    assert!(find_match(&Vec::new(), "same@example.com", "pw").is_none());
}

#[test]
fn token_names_the_user() {
    assert_eq!(generate_token(7, "secret").unwrap(), "token_for_user_7");
    assert_eq!(generate_token(0, "").unwrap(), "token_for_user_0");
    assert_eq!(generate_token(4294967295, "x").unwrap(), "token_for_user_4294967295");
    assert_eq!(generate_token(1200, "x").unwrap(), "token_for_user_1200");
}

#[test]
fn every_token_is_read_as_that_of_user_one() {
    let claims = validate_token("token_for_user_7", "secret").unwrap();
    assert_eq!(claims, Claims { sub: 1, exp: 0, iat: 0 });
    assert_eq!(validate_token("", "").unwrap().sub, 1);
}

#[test]
fn identifiers_from_a_counter_count_up_from_one() {
    let mut counter = 0;
    assert_eq!(generate_id(&mut counter), 1);
    assert_eq!(generate_id(&mut counter), 2);
    assert_eq!(counter, 2);
    let mut late = u32::MAX - 1;
    assert_eq!(generate_id(&mut late), u32::MAX);
}

#[test]
fn email_is_well_formed_with_an_at_sign_and_a_dot() {
    assert!(is_valid_email("john@example.com"));
    assert!(is_valid_email(".@"));
    assert!(!is_valid_email("john@example"));
    assert!(!is_valid_email("john.example.com"));
    assert!(!is_valid_email(""));
}

#[test]
fn user_is_formatted_as_name_and_email() {
    let user = user("John Doe", "john@example.com", "secret");
    assert_eq!(format_user(&user), "John Doe <john@example.com>");
    let blank = User::new(String::new(), String::new());
    assert_eq!(format_user(&blank), " <>");
}
