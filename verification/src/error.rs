use vstd::prelude::*;
use vstd::std_specs::convert::FromSpecImpl;

verus! {

/// What can go wrong in a storage backend.
#[derive(Debug)]
pub enum DatabaseError {
    ConnectionFailed,
    QueryFailed(String),
}

/// What can go wrong in an operation on users.
#[derive(Debug)]
pub enum UserError {
    /// The identifier names no stored user.
    NotFound,
    /// The user record broke a validation rule; the text says which.
    InvalidInput(String),
    /// The storage backend failed.
    Database(DatabaseError),
    /// The credentials were not accepted.
    Authentication,
}

/// A `DatabaseError` with its text as a sequence of characters.
pub enum DatabaseErrorView {
    ConnectionFailed,
    QueryFailed(Seq<char>),
}

/// A `UserError` with its texts as sequences of characters.
pub enum UserErrorView {
    NotFound,
    InvalidInput(Seq<char>),
    Database(DatabaseErrorView),
    Authentication,
}

impl View for DatabaseError {
    type V = DatabaseErrorView;

    open spec fn view(&self) -> DatabaseErrorView {
        match self {
            DatabaseError::ConnectionFailed => DatabaseErrorView::ConnectionFailed,
            DatabaseError::QueryFailed(detail) => DatabaseErrorView::QueryFailed(detail@),
        }
    }
}

impl View for UserError {
    type V = UserErrorView;

    open spec fn view(&self) -> UserErrorView {
        match self {
            UserError::NotFound => UserErrorView::NotFound,
            UserError::InvalidInput(reason) => UserErrorView::InvalidInput(reason@),
            UserError::Database(cause) => UserErrorView::Database(cause@),
            UserError::Authentication => UserErrorView::Authentication,
        }
    }
}

impl DatabaseErrorView {
    /// The text a database error is reported with.
    pub open spec fn message(self) -> Seq<char> {
        match self {
            DatabaseErrorView::ConnectionFailed => "Connection failed"@,
            DatabaseErrorView::QueryFailed(detail) => "Query failed: "@ + detail,
        }
    }
}

impl UserErrorView {
    /// The text a user error is reported with.
    pub open spec fn message(self) -> Seq<char> {
        match self {
            UserErrorView::NotFound => "User not found"@,
            UserErrorView::InvalidInput(reason) => "Invalid input: "@ + reason,
            UserErrorView::Database(cause) => "Database error: "@ + cause.message(),
            UserErrorView::Authentication => "Authentication error"@,
        }
    }
}

impl DatabaseError {
    /// The text this error is reported with.
    pub fn message(&self) -> (text: String)
        ensures
            text@ == self@.message(),
    {
        match self {
            DatabaseError::ConnectionFailed => "Connection failed".to_string(),
            DatabaseError::QueryFailed(detail) => {
                let mut text = "Query failed: ".to_string();
                text.append(detail.as_str());
                text
            },
        }
    }
}

impl UserError {
    /// The text this error is reported with.
    pub fn message(&self) -> (text: String)
        ensures
            text@ == self@.message(),
    {
        match self {
            UserError::NotFound => "User not found".to_string(),
            UserError::InvalidInput(reason) => {
                let mut text = "Invalid input: ".to_string();
                text.append(reason.as_str());
                text
            },
            UserError::Database(cause) => {
                let mut text = "Database error: ".to_string();
                let detail = cause.message();
                text.append(detail.as_str());
                text
            },
            UserError::Authentication => "Authentication error".to_string(),
        }
    }
}

impl From<DatabaseError> for UserError {
    fn from(cause: DatabaseError) -> (error: UserError) {
        UserError::Database(cause)
    }
}

impl FromSpecImpl<DatabaseError> for UserError {
    open spec fn obeys_from_spec() -> bool {
        true
    }

    open spec fn from_spec(cause: DatabaseError) -> UserError {
        UserError::Database(cause)
    }
}

} // verus!
