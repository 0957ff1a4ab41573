//! The access a connection holds: none, or read-only or editor access to
//! one project.
use vstd::prelude::*;

use crate::access::ServerMessageError;

verus! {

/// The access level stored for a project member.
#[derive(Debug, Clone, Copy, PartialEq, Eq, Structural)]
pub enum AccessLevel {
    ReadOnly,
    Editor,
}

/// The project a connection works in, with its access.
#[derive(Debug, Clone, PartialEq)]
pub enum ProjectAccess {
    NoProject,
    ReadOnly(uuid::Uuid),
    Editor(uuid::Uuid),
}

impl ProjectAccess {
    pub fn get_project_id(&self) -> (r: Option<&uuid::Uuid>)
        ensures
            match *self {
                ProjectAccess::NoProject => r is None,
                ProjectAccess::ReadOnly(id) => r == Some(&id),
                ProjectAccess::Editor(id) => r == Some(&id),
            },
    {
        match self {
            ProjectAccess::NoProject => None,
            ProjectAccess::ReadOnly(uuid) => Some(uuid),
            ProjectAccess::Editor(uuid) => Some(uuid),
        }
    }

    pub fn to_level(&self) -> (r: Option<AccessLevel>)
        ensures
            match *self {
                ProjectAccess::NoProject => r is None,
                ProjectAccess::ReadOnly(_) => r == Some(AccessLevel::ReadOnly),
                ProjectAccess::Editor(_) => r == Some(AccessLevel::Editor),
            },
    {
        match self {
            ProjectAccess::NoProject => None,
            ProjectAccess::ReadOnly(_) => Some(AccessLevel::ReadOnly),
            ProjectAccess::Editor(_) => Some(AccessLevel::Editor),
        }
    }

    /// Read permission: read-only or editor access.
    pub fn is_reader(&self) -> (r: bool)
        ensures
            r == !(*self is NoProject),
    {
        match self {
            ProjectAccess::NoProject => false,
            _ => true,
        }
    }

    pub fn is_readonly(&self) -> (r: bool)
        ensures
            r == (*self is ReadOnly),
    {
        match self {
            ProjectAccess::ReadOnly(_) => true,
            _ => false,
        }
    }

    pub fn is_editor(&self) -> (r: bool)
        ensures
            r == (*self is Editor),
    {
        match self {
            ProjectAccess::Editor(_) => true,
            _ => false,
        }
    }

    /// The project id for an editor; `NotInProject` without a project and
    /// `ReadonlyPermission` for a reader.
    pub fn need_editor(&self) -> (r: Result<&uuid::Uuid, ServerMessageError>)
        ensures
            match *self {
                ProjectAccess::NoProject => r == Err::<&uuid::Uuid, ServerMessageError>(
                    ServerMessageError::NotInProject,
                ),
                ProjectAccess::ReadOnly(_) => r == Err::<&uuid::Uuid, ServerMessageError>(
                    ServerMessageError::ReadonlyPermission,
                ),
                ProjectAccess::Editor(id) => r == Ok::<&uuid::Uuid, ServerMessageError>(&id),
            },
    {
        match self {
            ProjectAccess::NoProject => Err(ServerMessageError::NotInProject),
            ProjectAccess::ReadOnly(_) => Err(ServerMessageError::ReadonlyPermission),
            ProjectAccess::Editor(uuid) => Ok(uuid),
        }
    }
}

} // verus!
