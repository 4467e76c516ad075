use crate::text::contains_char;
use crate::user::{User, UserView};
use vstd::prelude::*;

verus! {

/// Takes the next identifier from a counter: moves the counter on by one and
/// returns its new value. A counter that starts at 0 gives 1, 2, 3 and so
/// on. The counter belongs to whoever gives out the identifiers; it is not
/// shared behind their back.
pub fn generate_id(counter: &mut u32) -> (id: u32)
    requires
        *old(counter) < u32::MAX,
    ensures
        *final(counter) == *old(counter) + 1,
        id == *final(counter),
{
    *counter = *counter + 1;
    *counter
}

/// An email address is taken as well-formed when it holds an `@` and a `.`.
pub open spec fn well_formed_email(email: Seq<char>) -> bool {
    email.contains('@') && email.contains('.')
}

/// Whether an email address is well-formed.
pub fn is_valid_email(email: &str) -> (valid: bool)
    ensures
        valid == well_formed_email(email@),
{
    contains_char(email, '@') && contains_char(email, '.')
}

/// A user as a name followed by the email in angle brackets.
pub open spec fn formatted(user: UserView) -> Seq<char> {
    user.name + " <"@ + user.email + ">"@
}

/// Shows a user as a name followed by the email in angle brackets.
pub fn format_user(user: &User) -> (text: String)
    ensures
        text@ == formatted(user@),
{
    let mut text = user.name.clone();
    text.append(" <");
    text.append(user.email.as_str());
    text.append(">");
    text
}

} // verus!
