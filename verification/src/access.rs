//! Access levels of users inside a project, and the errors the project
//! answers with when a user lacks the access an operation needs.
use vstd::prelude::*;

verus! {

/// Why a project refuses a request.
#[derive(Debug, Clone, PartialEq)]
pub enum ServerMessageError {
    /// The user has no read access (still queued, or not in the project).
    NotAccessible,
    /// The user may read but not edit.
    ReadonlyPermission,
    /// The user has not joined any project.
    NotInProject,
    /// No project has this id.
    ProjectNotFound(uuid::Uuid),
}

/// What a user may do in a project.
#[derive(Debug, Clone, Copy, PartialEq, Eq, Structural)]
pub enum AccessLevel {
    /// Waiting for the owner to let the user in.
    Queue,
    ReadOnly,
    Editor,
}

impl Default for AccessLevel {
    /// A user starts in the queue.
    fn default() -> (r: Self)
        ensures
            r == AccessLevel::Queue,
    {
        AccessLevel::Queue
    }
}

impl AccessLevel {
    /// Read access is granted to readers and editors.
    pub open spec fn spec_can_read(self) -> bool {
        self == AccessLevel::ReadOnly || self == AccessLevel::Editor
    }

    pub fn can_read(&self) -> (r: bool)
        ensures
            r == self.spec_can_read(),
    {
        match self {
            AccessLevel::ReadOnly | AccessLevel::Editor => true,
            AccessLevel::Queue => false,
        }
    }

    pub fn is_readonly(&self) -> (r: bool)
        ensures
            r == (*self == AccessLevel::ReadOnly),
    {
        match self {
            AccessLevel::ReadOnly => true,
            _ => false,
        }
    }

    pub fn is_editor(&self) -> (r: bool)
        ensures
            r == (*self == AccessLevel::Editor),
    {
        match self {
            AccessLevel::Editor => true,
            _ => false,
        }
    }

    /// `Ok` exactly when the user may read; otherwise `NotAccessible`.
    pub fn need_read(&self) -> (r: Result<(), ServerMessageError>)
        ensures
            self.spec_can_read() ==> r == Ok::<(), ServerMessageError>(()),
            !self.spec_can_read() ==> r == Err::<(), ServerMessageError>(
                ServerMessageError::NotAccessible,
            ),
    {
        if self.can_read() {
            Ok(())
        } else {
            Err(ServerMessageError::NotAccessible)
        }
    }

    /// `Ok` exactly for editors; readers get `ReadonlyPermission`, queued
    /// users `NotAccessible`.
    pub fn need_editor(&self) -> (r: Result<(), ServerMessageError>)
        ensures
            *self == AccessLevel::Editor ==> r == Ok::<(), ServerMessageError>(()),
            *self == AccessLevel::ReadOnly ==> r == Err::<(), ServerMessageError>(
                ServerMessageError::ReadonlyPermission,
            ),
            *self == AccessLevel::Queue ==> r == Err::<(), ServerMessageError>(
                ServerMessageError::NotAccessible,
            ),
    {
        match self {
            AccessLevel::Queue => Err(ServerMessageError::NotAccessible),
            AccessLevel::ReadOnly => Err(ServerMessageError::ReadonlyPermission),
            AccessLevel::Editor => Ok(()),
        }
    }
}

/// Whoever may edit may also read.
pub proof fn law_editor_can_read(level: AccessLevel)
    requires
        level == AccessLevel::Editor,
    ensures
        level.spec_can_read(),
{
}

} // verus!
