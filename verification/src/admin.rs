//! Administration commands, and the requests that they turn into.
//!
//! A command that sends a file or a directory needs its bytes first: the
//! caller reads what `reads` names, and hands the bytes over with the
//! command.

use crate::encoding::base64_encoding;
use crate::encoding::spec_fits_base64;
use crate::encoding::to_base64;
use vstd::prelude::*;

verus! {

/// What an administrator can ask for.
#[derive(Debug)]
pub enum AdminCommand {
    ViewContest,
    InitDb,
    ListUsers,
    AddUser { id: String, display_name: String, token: String },
    DeleteUser { id: String },
    AddProblem { name: String, path: String },
    DeleteProblem { name: String },
    ImportFile {
        /// Path of the contest to import.
        path: String,
    },
}

/// The operations of the contest's interface that the commands use.
#[derive(Clone, Copy, Debug, PartialEq, Eq, Structural)]
pub enum AdminOperation {
    ViewContestQuery,
    InitDbMutation,
    ListUsersQuery,
    AddUserMutation,
    DeleteUserMutation,
    AddProblemMutation,
    DeleteProblemMutation,
    ImportMutation,
}

/// What has to be read before a command can be turned into a request.
#[derive(Debug)]
pub enum AdminInput {
    /// Nothing.
    Nothing,
    /// The directory at this path, packed into a compressed archive.
    Directory(String),
    /// The file at this path, and its file name.
    File(String),
}

/// What was read for a command.
#[derive(Debug)]
pub struct AdminPayload {
    /// The bytes of the archive or of the file.
    pub bytes: Vec<u8>,
    /// The file name, where a file was read and has one.
    pub file_name: Option<String>,
}

/// The variables of a request.
#[derive(Debug)]
pub enum AdminVariables {
    Empty,
    AddUser { id: String, display_name: String, token: String },
    DeleteUser { id: String },
    AddProblem { name: String, archive_base64: String },
    DeleteProblem { name: String },
    Import { content_base64: String, filename: Option<String>, filetype: Option<String> },
}

/// A request to the contest's interface.
#[derive(Debug)]
pub struct AdminRequest {
    pub operation: AdminOperation,
    pub operation_name: String,
    pub variables: AdminVariables,
}

/// Why a command could not be turned into a request.
#[derive(Clone, Copy, Debug, PartialEq, Eq, Structural)]
pub enum AdminError {
    /// The bytes are too many for their base64 text.
    TooLarge,
    /// The file to import has no file name.
    NoFileName,
}

/// The name of an operation, as the interface knows it.
pub open spec fn operation_name_of(operation: AdminOperation) -> Seq<char> {
    match operation {
        AdminOperation::ViewContestQuery => "ViewContestQuery"@,
        AdminOperation::InitDbMutation => "InitDbMutation"@,
        AdminOperation::ListUsersQuery => "ListUsersQuery"@,
        AdminOperation::AddUserMutation => "AddUserMutation"@,
        AdminOperation::DeleteUserMutation => "DeleteUserMutation"@,
        AdminOperation::AddProblemMutation => "AddProblemMutation"@,
        AdminOperation::DeleteProblemMutation => "DeleteProblemMutation"@,
        AdminOperation::ImportMutation => "ImportMutation"@,
    }
}

impl AdminOperation {
    /// The name of the operation, as the interface knows it.
    pub fn name(self) -> (name: String)
        ensures
            name@ == operation_name_of(self),
    {
        match self {
            AdminOperation::ViewContestQuery => "ViewContestQuery".to_owned(),
            AdminOperation::InitDbMutation => "InitDbMutation".to_owned(),
            AdminOperation::ListUsersQuery => "ListUsersQuery".to_owned(),
            AdminOperation::AddUserMutation => "AddUserMutation".to_owned(),
            AdminOperation::DeleteUserMutation => "DeleteUserMutation".to_owned(),
            AdminOperation::AddProblemMutation => "AddProblemMutation".to_owned(),
            AdminOperation::DeleteProblemMutation => "DeleteProblemMutation".to_owned(),
            AdminOperation::ImportMutation => "ImportMutation".to_owned(),
        }
    }
}

impl AdminCommand {
    /// The operation that the command uses.
    pub open spec fn spec_operation(self) -> AdminOperation {
        match self {
            AdminCommand::ViewContest => AdminOperation::ViewContestQuery,
            AdminCommand::InitDb => AdminOperation::InitDbMutation,
            AdminCommand::ListUsers => AdminOperation::ListUsersQuery,
            AdminCommand::AddUser { id, display_name, token } => AdminOperation::AddUserMutation,
            AdminCommand::DeleteUser { id } => AdminOperation::DeleteUserMutation,
            AdminCommand::AddProblem { name, path } => AdminOperation::AddProblemMutation,
            AdminCommand::DeleteProblem { name } => AdminOperation::DeleteProblemMutation,
            AdminCommand::ImportFile { path } => AdminOperation::ImportMutation,
        }
    }

    /// Why the command cannot be turned into a request with `payload`, if
    /// it cannot: the bytes of a problem or of a file to import must be few
    /// enough for their base64 text, and a file to import must have a file
    /// name.
    pub open spec fn refusal(self, payload: AdminPayload) -> Option<AdminError> {
        match self {
            AdminCommand::AddProblem { name, path } => if spec_fits_base64(payload.bytes@.len()) {
                None
            } else {
                Some(AdminError::TooLarge)
            },
            AdminCommand::ImportFile { path } => if !spec_fits_base64(payload.bytes@.len()) {
                Some(AdminError::TooLarge)
            } else if payload.file_name is None {
                Some(AdminError::NoFileName)
            } else {
                None
            },
            _ => None,
        }
    }

    /// Whether `variables` are those that the command sends with `payload`.
    pub open spec fn sends(self, payload: AdminPayload, variables: AdminVariables) -> bool {
        match self {
            AdminCommand::ViewContest => variables is Empty,
            AdminCommand::InitDb => variables is Empty,
            AdminCommand::ListUsers => variables is Empty,
            AdminCommand::AddUser { id, display_name, token } => variables == (AdminVariables::AddUser {
                id,
                display_name,
                token,
            }),
            AdminCommand::DeleteUser { id } => variables == (AdminVariables::DeleteUser { id }),
            AdminCommand::AddProblem { name, path } => variables matches AdminVariables::AddProblem {
                name: sent,
                archive_base64,
            } && sent == name && archive_base64@ == base64_encoding(payload.bytes@),
            AdminCommand::DeleteProblem { name } => variables == (AdminVariables::DeleteProblem { name }),
            AdminCommand::ImportFile { path } => variables matches AdminVariables::Import {
                content_base64,
                filename,
                filetype,
            } && content_base64@ == base64_encoding(payload.bytes@) && filename == payload.file_name && filetype
                is None,
        }
    }

    /// What the caller has to read before the command can be turned into a
    /// request: the directory of a problem to add, the file to import, and
    /// nothing for the other commands.
    pub fn reads(&self) -> (input: AdminInput)
        ensures
            match *self {
                AdminCommand::AddProblem { name, path } => input == AdminInput::Directory(path),
                AdminCommand::ImportFile { path } => input == AdminInput::File(path),
                _ => input is Nothing,
            },
    {
        match self {
            AdminCommand::ViewContest => AdminInput::Nothing,
            AdminCommand::InitDb => AdminInput::Nothing,
            AdminCommand::ListUsers => AdminInput::Nothing,
            AdminCommand::AddUser { .. } => AdminInput::Nothing,
            AdminCommand::DeleteUser { .. } => AdminInput::Nothing,
            AdminCommand::AddProblem { name: _, path } => AdminInput::Directory(path.clone()),
            AdminCommand::DeleteProblem { .. } => AdminInput::Nothing,
            AdminCommand::ImportFile { path } => AdminInput::File(path.clone()),
        }
    }

    /// Turns the command into the request that carries it out, where
    /// `payload` holds what was read for it. The bytes of a problem's
    /// archive and of a file to import travel as base64 text.
    pub fn to_graphql_request(self, payload: AdminPayload) -> (request: Result<AdminRequest, AdminError>)
        ensures
            match self.refusal(payload) {
                Some(error) => request == Err::<AdminRequest, AdminError>(error),
                None => request matches Ok(built) && built.operation == self.spec_operation()
                    && built.operation_name@ == operation_name_of(self.spec_operation()) && self.sends(
                    payload,
                    built.variables,
                ),
            },
    {
        let (operation, variables) = match self {
            AdminCommand::ViewContest => (AdminOperation::ViewContestQuery, AdminVariables::Empty),
            AdminCommand::InitDb => (AdminOperation::InitDbMutation, AdminVariables::Empty),
            AdminCommand::ListUsers => (AdminOperation::ListUsersQuery, AdminVariables::Empty),
            AdminCommand::AddUser { id, display_name, token } => (
                AdminOperation::AddUserMutation,
                AdminVariables::AddUser { id, display_name, token },
            ),
            AdminCommand::DeleteUser { id } => (
                AdminOperation::DeleteUserMutation,
                AdminVariables::DeleteUser { id },
            ),
            AdminCommand::AddProblem { name, path } => match to_base64(payload.bytes.as_slice()) {
                Some(archive_base64) => (
                    AdminOperation::AddProblemMutation,
                    AdminVariables::AddProblem { name, archive_base64 },
                ),
                None => {
                    return Err(AdminError::TooLarge);
                },
            },
            AdminCommand::DeleteProblem { name } => (
                AdminOperation::DeleteProblemMutation,
                AdminVariables::DeleteProblem { name },
            ),
            AdminCommand::ImportFile { path } => match to_base64(payload.bytes.as_slice()) {
                Some(content_base64) => match payload.file_name {
                    Some(file_name) => (
                        AdminOperation::ImportMutation,
                        AdminVariables::Import { content_base64, filename: Some(file_name), filetype: None },
                    ),
                    None => {
                        return Err(AdminError::NoFileName);
                    },
                },
                None => {
                    return Err(AdminError::TooLarge);
                },
            },
        };
        Ok(AdminRequest { operation, operation_name: operation.name(), variables })
    }
}

} // verus!
