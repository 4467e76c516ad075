use vstd::prelude::*;

verus! {

/// The stage an operation has reached.
#[derive(Debug, Clone, Copy, PartialEq, Eq, Structural)]
pub enum Status {
    Pending,
    InProgress,
    Completed,
    Failed,
}

impl Status {
    /// The name of a status in lower case, words joined by an underscore.
    pub open spec fn name(self) -> Seq<char> {
        match self {
            Status::Pending => "pending"@,
            Status::InProgress => "in_progress"@,
            Status::Completed => "completed"@,
            Status::Failed => "failed"@,
        }
    }

    /// True once the operation has ended, whether it succeeded or not.
    pub fn is_completed(&self) -> (done: bool)
        ensures
            done == (*self == Status::Completed || *self == Status::Failed),
    {
        match self {
            Status::Completed | Status::Failed => true,
            _ => false,
        }
    }

    /// True while the operation has not ended.
    pub fn is_active(&self) -> (active: bool)
        ensures
            active == (*self == Status::Pending || *self == Status::InProgress),
    {
        match self {
            Status::Pending | Status::InProgress => true,
            _ => false,
        }
    }

    /// The status as text.
    pub fn as_str(&self) -> (text: &'static str)
        ensures
            text@ == self.name(),
    {
        match self {
            Status::Pending => "pending",
            Status::InProgress => "in_progress",
            Status::Completed => "completed",
            Status::Failed => "failed",
        }
    }
}

} // verus!
