use crate::error::UserError;
use crate::service::{found_view, is_backend_failure, lookup, views, UserService};
use crate::text::{decimal_digits, decimal_string};
use crate::user::{derived_form, User, UserView};
use vstd::prelude::*;

verus! {

/// What a session token states: whom it was issued to (`sub`), until when it
/// holds (`exp`) and when it was issued (`iat`).
#[derive(Debug, Clone, Copy, PartialEq, Eq, Structural)]
pub struct Claims {
    pub sub: u32,
    pub exp: usize,
    pub iat: usize,
}

/// Whether a user has the given email and the given password.
pub open spec fn has_credentials(user: UserView, email: Seq<char>, password: Seq<char>) -> bool {
    user.email == email && user.credential == derived_form(password)
}

/// The first user of a list that has the given email and password, if any
/// has.
pub open spec fn first_match(list: Seq<UserView>, email: Seq<char>, password: Seq<char>) -> Option<
    UserView,
>
    decreases list.len(),
{
    if list.len() == 0 {
        None
    } else if has_credentials(list[0], email, password) {
        Some(list[0])
    } else {
        first_match(list.drop_first(), email, password)
    }
}

/// `first_match` finds nothing exactly where no user of the list has the
/// credentials, and what it finds is a user of the list that has them.
pub proof fn lemma_first_match(list: Seq<UserView>, email: Seq<char>, password: Seq<char>)
    ensures
        match first_match(list, email, password) {
            Some(user) => has_credentials(user, email, password) && list.contains(user),
            None => forall|i: int|
                0 <= i < list.len() ==> !has_credentials(#[trigger] list[i], email, password),
        },
    decreases list.len(),
{
    if list.len() > 0 && !has_credentials(list[0], email, password) {
        let rest = list.drop_first();
        lemma_first_match(rest, email, password);
        match first_match(rest, email, password) {
            Some(user) => {
                let i: int = choose|i: int| 0 <= i < rest.len() && rest[i] == user;
                assert(list[i + 1] == user);
            },
            None => {
                assert forall|i: int| 0 <= i < list.len() implies !has_credentials(
                    #[trigger] list[i],
                    email,
                    password,
                ) by {
                    if i > 0 {
                        assert(list[i] == rest[i - 1]);
                    }
                }
            },
        }
    } else if list.len() > 0 {
        assert(list[0] == list[0]);
    }
}

/// The first of `users` that has the given email and password.
pub fn find_match(users: &Vec<User>, email: &str, password: &str) -> (found: Option<User>)
    ensures
        match found {
            Some(user) => first_match(views(users@), email@, password@) == Some(user@),
            None => first_match(views(users@), email@, password@) is None,
        },
{
    let wanted = email.to_string();
    let mut i: usize = 0;
    assert(views(users@).skip(0) =~= views(users@));
    while i < users.len()
        invariant
            i <= users.len(),
            wanted@ == email@,
            first_match(views(users@), email@, password@) == first_match(
                views(users@).skip(i as int),
                email@,
                password@,
            ),
        decreases users.len() - i,
    {
        let user = &users[i];
        proof {
            let rest = views(users@).skip(i as int);
            assert(rest[0] == user@);
            assert(rest.drop_first() =~= views(users@).skip(i + 1));
        }
        if user.email == wanted && user.verify_password(password) {
            return Some(user.clone());
        }
        i = i + 1;
    }
    None
}

/// Looks among the users of a service for one with the given email and
/// password. Where several have both, any of them may be returned.
pub fn authenticate_user<T: UserService>(service: &T, email: &str, password: &str) -> (outcome:
    Result<Option<User>, UserError>)
    requires
        service.inv(),
    ensures
        match outcome {
            Ok(Some(user)) => lookup(service.users(), user.id) == Some(user@) && has_credentials(
                user@,
                email@,
                password@,
            ),
            Ok(None) => forall|id: u32| #[trigger]
                service.users().contains_key(id) ==> !has_credentials(
                    service.users()[id],
                    email@,
                    password@,
                ),
            Err(error) => is_backend_failure(error@, service.can_fail()),
        },
{
    let users = match service.list_users() {
        Ok(users) => users,
        Err(error) => {
            return Err(error);
        },
    };
    let found = find_match(&users, email, password);
    proof {
        let list = views(users@);
        lemma_first_match(list, email@, password@);
        match found_view(found) {
            Some(user) => {
                let i: int = choose|i: int| 0 <= i < list.len() && list[i] == user;
                assert(service.users().contains_key(list[i].id));
            },
            None => {
                assert forall|id: u32| #[trigger]
                    service.users().contains_key(id) implies !has_credentials(
                    service.users()[id],
                    email@,
                    password@,
                ) by {
                    let i: int = choose|i: int| 0 <= i < list.len() && list[i].id == id;
                    assert(service.users()[list[i].id] == list[i]);
                }
            },
        }
    }
    Ok(found)
}

/// The text of the token for a user.
///
/// This token is a stand-in: it names the user and is signed by nothing. A
/// deployment has to replace it.
pub open spec fn token_text(user_id: u32) -> Seq<char> {
    "token_for_user_"@ + decimal_digits(user_id as nat)
}

/// Issues the token for a user. The secret plays no part yet.
pub fn generate_token(user_id: u32, secret: &str) -> (outcome: Result<String, UserError>)
    ensures
        outcome is Ok,
        outcome->Ok_0@ == token_text(user_id),
{
    let mut token = "token_for_user_".to_string();
    let id = decimal_string(user_id);
    token.append(id.as_str());
    Ok(token)
}

/// Reads the claims of a token. Every token is taken to be that of user 1,
/// without end: neither the token nor the secret plays a part yet.
pub fn validate_token(token: &str, secret: &str) -> (outcome: Result<Claims, UserError>)
    ensures
        outcome is Ok,
        outcome->Ok_0 == (Claims { sub: 1, exp: 0, iat: 0 }),
{
    Ok(Claims { sub: 1, exp: 0, iat: 0 })
}

} // verus!
