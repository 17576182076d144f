use turingarena::admin::AdminCommand;
use turingarena::admin::AdminError;
use turingarena::admin::AdminInput;
use turingarena::admin::AdminOperation;
use turingarena::admin::AdminPayload;
use turingarena::admin::AdminVariables;
use turingarena::encoding::from_base64;
use turingarena::encoding::to_base64;

fn nothing() -> AdminPayload {
    AdminPayload { bytes: vec![], file_name: None }
}

#[test]
fn commands_without_variables_name_their_operation() {
    let view = AdminCommand::ViewContest.to_graphql_request(nothing()).expect("nothing can fail");
    assert_eq!(view.operation, AdminOperation::ViewContestQuery);
    assert_eq!(view.operation_name, "ViewContestQuery");
    assert!(matches!(view.variables, AdminVariables::Empty));
    let init = AdminCommand::InitDb.to_graphql_request(nothing()).expect("nothing can fail");
    assert_eq!(init.operation, AdminOperation::InitDbMutation);
    assert_eq!(init.operation_name, "InitDbMutation");
    assert!(matches!(init.variables, AdminVariables::Empty));
    let list = AdminCommand::ListUsers.to_graphql_request(nothing()).expect("nothing can fail");
    assert_eq!(list.operation, AdminOperation::ListUsersQuery);
    assert_eq!(list.operation_name, "ListUsersQuery");
    assert!(matches!(list.variables, AdminVariables::Empty));
}

#[test]
fn commands_about_users_send_what_they_were_given() {
    let add = AdminCommand::AddUser {
        id: "alice".to_owned(),
        display_name: "Alice".to_owned(),
        token: "opensesame".to_owned(),
    };
    let request = add.to_graphql_request(nothing()).expect("nothing can fail");
    assert_eq!(request.operation, AdminOperation::AddUserMutation);
    assert_eq!(request.operation_name, "AddUserMutation");
    match request.variables {
        AdminVariables::AddUser { id, display_name, token } => {
            assert_eq!(id, "alice");
            assert_eq!(display_name, "Alice");
            assert_eq!(token, "opensesame");
        }
        other => panic!("wrong variables: {:?}", other),
    }
    let delete = AdminCommand::DeleteUser { id: "bob".to_owned() };
    let request = delete.to_graphql_request(nothing()).expect("nothing can fail");
    assert_eq!(request.operation_name, "DeleteUserMutation");
    assert!(matches!(request.variables, AdminVariables::DeleteUser { id } if id == "bob"));
}

#[test]
fn a_problem_is_added_with_its_archive_in_base64() {
    let add = AdminCommand::AddProblem { name: "sum".to_owned(), path: "problems/sum".to_owned() };
    assert!(matches!(add.reads(), AdminInput::Directory(path) if path == "problems/sum"));
    let payload = AdminPayload { bytes: b"hello world".to_vec(), file_name: None };
    let request = add.to_graphql_request(payload).expect("the archive is small");
    assert_eq!(request.operation, AdminOperation::AddProblemMutation);
    assert_eq!(request.operation_name, "AddProblemMutation");
    match request.variables {
        AdminVariables::AddProblem { name, archive_base64 } => {
            assert_eq!(name, "sum");
            assert_eq!(archive_base64, "aGVsbG8gd29ybGQ=");
        }
        other => panic!("wrong variables: {:?}", other),
    }
    let delete = AdminCommand::DeleteProblem { name: "sum".to_owned() };
    let request = delete.to_graphql_request(nothing()).expect("nothing can fail");
    assert_eq!(request.operation_name, "DeleteProblemMutation");
    assert!(matches!(request.variables, AdminVariables::DeleteProblem { name } if name == "sum"));
}

#[test]
fn a_file_is_imported_with_its_name_and_its_bytes_in_base64() {
    let import = AdminCommand::ImportFile { path: "/tmp/contest.yaml".to_owned() };
    assert!(matches!(import.reads(), AdminInput::File(path) if path == "/tmp/contest.yaml"));
    let payload = AdminPayload { bytes: b"hello".to_vec(), file_name: Some("contest.yaml".to_owned()) };
    let request = import.to_graphql_request(payload).expect("the file is small and named");
    assert_eq!(request.operation, AdminOperation::ImportMutation);
    assert_eq!(request.operation_name, "ImportMutation");
    match request.variables {
        AdminVariables::Import { content_base64, filename, filetype } => {
            assert_eq!(content_base64, "aGVsbG8=");
            assert_eq!(filename.as_deref(), Some("contest.yaml"));
            assert_eq!(filetype, None);
        }
        other => panic!("wrong variables: {:?}", other),
    }
}

#[test]
fn a_file_without_a_name_is_not_imported() {
    let import = AdminCommand::ImportFile { path: "..".to_owned() };
    let payload = AdminPayload { bytes: b"hello".to_vec(), file_name: None };
    assert_eq!(import.to_graphql_request(payload).err(), Some(AdminError::NoFileName));
}

#[test]
fn most_commands_read_nothing() {
    assert!(matches!(AdminCommand::ViewContest.reads(), AdminInput::Nothing));
    assert!(matches!(AdminCommand::InitDb.reads(), AdminInput::Nothing));
    assert!(matches!(AdminCommand::ListUsers.reads(), AdminInput::Nothing));
    assert!(matches!(AdminCommand::DeleteUser { id: "bob".to_owned() }.reads(), AdminInput::Nothing));
    assert!(matches!(AdminCommand::DeleteProblem { name: "sum".to_owned() }.reads(), AdminInput::Nothing));
}

#[test]
fn operations_are_known_by_their_names() {
    assert_eq!(AdminOperation::ViewContestQuery.name(), "ViewContestQuery");
    assert_eq!(AdminOperation::ImportMutation.name(), "ImportMutation");
    assert_eq!(AdminOperation::AddProblemMutation.name(), "AddProblemMutation");
}

#[test]
fn base64_goes_there_and_back() {
    assert_eq!(to_base64(b"").as_deref(), Some(""));
    assert_eq!(to_base64(b"f").as_deref(), Some("Zg=="));
    assert_eq!(to_base64(b"fo").as_deref(), Some("Zm8="));
    assert_eq!(to_base64(b"foo").as_deref(), Some("Zm9v"));
    assert_eq!(to_base64(&[0xfb, 0xff]).as_deref(), Some("+/8="));
    assert_eq!(from_base64("Zm9v"), Some(b"foo".to_vec()));
    assert_eq!(from_base64("+/8="), Some(vec![0xfb, 0xff]));
    assert_eq!(from_base64("Zm9"), None);
    assert_eq!(from_base64("-_8="), None);
}
