use crate::error::{UserError, UserErrorView};
use crate::text::{contains_char, decimal_digits, decimal_string};
use vstd::prelude::*;

verus! {

/// The longest name a user may have, in characters.
pub const MAX_USERNAME_LENGTH: usize = 100;

/// What is kept of a password: the form derived from it, never the password
/// itself. No function hands the derived text out.
#[derive(Debug)]
pub struct PasswordHash {
    derived: String,
}

/// A user of the system. An `id` of zero means that no store has taken the
/// record in yet.
#[derive(Debug)]
pub struct User {
    pub id: u32,
    pub name: String,
    pub email: String,
    pub password_hash: PasswordHash,
}

/// A `User` as plain values.
pub struct UserView {
    pub id: u32,
    pub name: Seq<char>,
    pub email: Seq<char>,
    /// The derived form of the password, empty while none was set.
    pub credential: Seq<char>,
}

/// The form in which a password is kept.
///
/// This derivation is a stand-in without any cryptographic strength: it only
/// marks the text. A deployment has to replace it.
pub open spec fn derived_form(password: Seq<char>) -> Seq<char> {
    "hashed_"@ + password
}

/// The first validation rule that a record breaks, as the text that is
/// reported for it; `None` where the record is valid.
pub open spec fn validation_failure(user: UserView) -> Option<Seq<char>> {
    if user.name.len() == 0 {
        Some("Name is required"@)
    } else if user.email.len() == 0 {
        Some("Email is required"@)
    } else if !user.email.contains('@') {
        Some("Invalid email format"@)
    } else if user.name.len() > MAX_USERNAME_LENGTH {
        Some("Username too long"@)
    } else {
        None
    }
}

/// A record is valid when its name has between 1 and `MAX_USERNAME_LENGTH`
/// characters and its email is not empty and holds an `@`.
pub open spec fn is_valid(user: UserView) -> bool {
    &&& 0 < user.name.len() <= MAX_USERNAME_LENGTH
    &&& user.email.len() > 0
    &&& user.email.contains('@')
}

/// The two ways of saying that a record is valid agree.
pub proof fn lemma_valid_iff_no_failure(user: UserView)
    ensures
        is_valid(user) <==> validation_failure(user) is None,
{
}

impl UserView {
    /// This record under another identifier.
    pub open spec fn with_id(self, id: u32) -> UserView {
        UserView { id, ..self }
    }

    /// The one-line text that shows a user.
    pub open spec fn text(self) -> Seq<char> {
        "User(id: "@ + decimal_digits(self.id as nat) + ", name: "@ + self.name + ", email: "@
            + self.email + ")"@
    }
}

impl View for PasswordHash {
    type V = Seq<char>;

    closed spec fn view(&self) -> Seq<char> {
        self.derived@
    }
}

impl Clone for PasswordHash {
    fn clone(&self) -> (copy: PasswordHash)
        ensures
            copy@ == self@,
    {
        PasswordHash { derived: self.derived.clone() }
    }
}

impl PasswordHash {
    /// The hash of a user for whom no password was set: the empty text,
    /// which no password derives to.
    pub fn new() -> (hash: PasswordHash)
        ensures
            hash@ == Seq::<char>::empty(),
    {
        PasswordHash { derived: String::new() }
    }

    /// The hash of a password.
    pub fn derive(password: &str) -> (hash: PasswordHash)
        ensures
            hash@ == derived_form(password@),
    {
        PasswordHash { derived: hash_password(password) }
    }

    /// Whether this is the hash of the given password.
    pub fn matches(&self, password: &str) -> (same: bool)
        ensures
            same == (self@ == derived_form(password@)),
    {
        let offered = hash_password(password);
        self.derived == offered
    }
}

/// Derives the form in which a password is kept.
pub fn hash_password(password: &str) -> (derived: String)
    ensures
        derived@ == derived_form(password@),
{
    let mut derived = "hashed_".to_string();
    derived.append(password);
    derived
}

impl View for User {
    type V = UserView;

    open spec fn view(&self) -> UserView {
        UserView {
            id: self.id,
            name: self.name@,
            email: self.email@,
            credential: self.password_hash@,
        }
    }
}

impl Clone for User {
    fn clone(&self) -> (copy: User)
        ensures
            copy@ == self@,
    {
        User {
            id: self.id,
            name: self.name.clone(),
            email: self.email.clone(),
            password_hash: self.password_hash.clone(),
        }
    }
}

impl User {
    /// A record that no store has taken in yet, without a password.
    pub fn new(name: String, email: String) -> (user: User)
        ensures
            user@ == (UserView {
                id: 0,
                name: name@,
                email: email@,
                credential: Seq::<char>::empty(),
            }),
    {
        User { id: 0, name, email, password_hash: PasswordHash::new() }
    }

    /// Checks the record against the validation rules, in their order, and
    /// reports the first one broken.
    pub fn validate(&self) -> (outcome: Result<(), UserError>)
        ensures
            match outcome {
                Ok(()) => is_valid(self@),
                Err(error) => validation_failure(self@) matches Some(reason) && error@
                    == UserErrorView::InvalidInput(reason),
            },
    {
        if self.name.as_str().is_empty() {
            return Err(UserError::InvalidInput("Name is required".to_string()));
        }
        if self.email.as_str().is_empty() {
            return Err(UserError::InvalidInput("Email is required".to_string()));
        }
        if !contains_char(self.email.as_str(), '@') {
            return Err(UserError::InvalidInput("Invalid email format".to_string()));
        }
        if self.name.as_str().unicode_len() > MAX_USERNAME_LENGTH {
            return Err(UserError::InvalidInput("Username too long".to_string()));
        }
        Ok(())
    }

    /// Replaces the password; only its derived form is kept.
    pub fn set_password(&mut self, password: &str)
        ensures
            final(self)@ == (UserView { credential: derived_form(password@), ..old(self)@ }),
    {
        self.password_hash = PasswordHash::derive(password);
    }

    /// Whether the given password is the one that was set.
    pub fn verify_password(&self, password: &str) -> (accepted: bool)
        ensures
            accepted == (self@.credential == derived_form(password@)),
    {
        self.password_hash.matches(password)
    }

    /// The name to show for this user.
    pub fn display_name(&self) -> (name: &str)
        ensures
            name@ == self@.name,
    {
        self.name.as_str()
    }

    /// The one-line text that shows this user. The password hash is not part
    /// of it.
    pub fn to_text(&self) -> (text: String)
        ensures
            text@ == self@.text(),
    {
        let mut text = "User(id: ".to_string();
        let id = decimal_string(self.id);
        text.append(id.as_str());
        text.append(", name: ");
        text.append(self.name.as_str());
        text.append(", email: ");
        text.append(self.email.as_str());
        text.append(")");
        text
    }
}

} // verus!
