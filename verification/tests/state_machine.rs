use entelur::datamodel::{Group, GroupMembership, User};
use entelur::error::DataError;
use entelur::state_machine::group::{
    confirm_group, create_group, group_chosen, group_created, parse_group_id,
    recieve_group_description, recieve_group_user_add,
};
use entelur::state_machine::state::{State, UserData};
use entelur::state_machine::user::{confirm_user, register_name, user_registered};
use entelur::state_machine::{
    cancel, groups_fetched, help, invalid_state, memberships_found, on_callback, on_command,
    on_message, reads, register, to_do_message, Command, Reply, Request, Step,
};

fn some(text: &str) -> Option<String> {
    Some(text.to_string())
}

fn say(reply: Reply) -> Step {
    Step { reply: Some(reply), next: None, request: None }
}

fn say_and_go(reply: Reply, next: State) -> Step {
    Step { reply: Some(reply), next: Some(next), request: None }
}

fn trip() -> Group {
    Group::new(0, "trip".to_string(), "to the sea".to_string(), "42".to_string())
}

fn alice() -> UserData {
    UserData { username: "al".to_string(), name: "Alice".to_string() }
}

#[test]
fn conversation_starts_at_start() {
    assert_eq!(State::default(), State::Start);
    assert_eq!(UserData::default(), UserData { username: String::new(), name: String::new() });
}

#[test]
fn reads_compares_whole_words() {
    assert!(reads(&"Edit".to_string(), "Edit"));
    assert!(!reads(&"edit".to_string(), "Edit"));
    assert!(!reads(&"Edit ".to_string(), "Edit"));
    assert!(!reads(&"".to_string(), "Edit"));
}

#[test]
fn steps_of_the_plain_commands() {
    assert_eq!(help(), say(Reply::Help));
    assert_eq!(cancel(), say_and_go(Reply::ResetSuccessful, State::Start));
    assert_eq!(invalid_state(), say(Reply::InvalidState));
    assert_eq!(register(), say_and_go(Reply::EnterYourName, State::RegisterUser));
    assert_eq!(to_do_message(), say(Reply::NotSupported));
    assert_eq!(
        entelur::state_machine::create_group(),
        say_and_go(Reply::EnterGroupName, State::CreateGroup)
    );
    assert_eq!(
        entelur::state_machine::add_user("42".to_string()),
        Step {
            reply: Some(Reply::SelectGroup),
            next: None,
            request: Some(Request::GetMembership { user_id: "42".to_string() }),
        }
    );
}

#[test]
fn cancel_is_handled_in_every_state() {
    let states = [
        State::Start,
        State::RegisterUser,
        State::ConfirmUser { data: alice() },
        State::CreateGroup,
        State::ConfirmGroup { group: trip() },
        State::RecieveGroupToAddUser,
        State::AddExpense,
    ];
    for state in states {
        assert_eq!(
            on_command(&state, Command::Cancel, "42".to_string()),
            Some(say_and_go(Reply::ResetSuccessful, State::Start))
        );
        assert_eq!(on_command(&state, Command::Help, "42".to_string()), Some(say(Reply::Help)));
    }
}

#[test]
fn other_commands_are_handled_at_the_start_only() {
    assert_eq!(
        on_command(&State::Start, Command::Register, "42".to_string()),
        Some(say_and_go(Reply::EnterYourName, State::RegisterUser))
    );
    assert_eq!(
        on_command(&State::Start, Command::CreateGroup, "42".to_string()),
        Some(say_and_go(Reply::EnterGroupName, State::CreateGroup))
    );
    assert_eq!(
        on_command(&State::Start, Command::AddUser, "42".to_string()),
        Some(Step {
            reply: Some(Reply::SelectGroup),
            next: None,
            request: Some(Request::GetMembership { user_id: "42".to_string() }),
        })
    );
    let idle = [
        Command::ModifyGroup,
        Command::AddExpense,
        Command::ShowPending,
        Command::Settle,
        Command::ShowSummary,
        Command::ShowStatement { months: 3 },
    ];
    for command in idle {
        assert_eq!(on_command(&State::Start, command, "42".to_string()), Some(say(Reply::NotSupported)));
        assert_eq!(on_command(&State::RegisterUser, command, "42".to_string()), None);
    }
    assert_eq!(on_command(&State::CreateGroup, Command::Register, "42".to_string()), None);
}

#[test]
fn register_name_needs_text_and_username() {
    assert_eq!(register_name(None, some("al")), say(Reply::EnterAName));
    assert_eq!(register_name(None, None), say(Reply::EnterAName));
    assert_eq!(register_name(some("Alice"), None), say(Reply::UsernameNotFound));
    assert_eq!(
        register_name(some("Alice"), some("al")),
        say_and_go(
            Reply::ConfirmUserDetails { name: "Alice".to_string(), username: "al".to_string() },
            State::ConfirmUser { data: alice() }
        )
    );
}

#[test]
fn confirm_user_follows_the_answer() {
    assert_eq!(confirm_user(alice(), None, "42".to_string()), say(Reply::CallbackNotFound));
    assert_eq!(
        confirm_user(alice(), some("Edit"), "42".to_string()),
        say_and_go(Reply::EnterYourName, State::RegisterUser)
    );
    assert_eq!(
        confirm_user(alice(), some("Cancel"), "42".to_string()),
        say_and_go(Reply::RegistrationCanceled, State::Start)
    );
    assert_eq!(
        confirm_user(alice(), some("Maybe"), "42".to_string()),
        say_and_go(Reply::InvalidInput, State::RegisterUser)
    );
    assert_eq!(
        confirm_user(alice(), some("Accept"), "42".to_string()),
        Step {
            reply: Some(Reply::ThanksForConfirming),
            next: None,
            request: Some(Request::AddUser {
                user: User::new("42".to_string(), "Alice".to_string(), "al".to_string())
            }),
        }
    );
}

#[test]
fn user_registered_reports_the_outcome() {
    assert_eq!(user_registered(Ok(())), say_and_go(Reply::Registered, State::Start));
    assert_eq!(user_registered(Err(DataError::Conflict)), say(Reply::RegistrationFailed));
    assert_eq!(user_registered(Err(DataError::IoOrEngineFailure)), say(Reply::RegistrationFailed));
}

#[test]
fn create_group_begins_with_the_name() {
    assert_eq!(create_group(None, "42".to_string()), say(Reply::EnterGroupName));
    assert_eq!(
        create_group(some("trip"), "42".to_string()),
        say_and_go(
            Reply::EnterGroupDescription,
            State::RecieveGroupDescription {
                group: Group::new(0, "trip".to_string(), String::new(), "42".to_string())
            }
        )
    );
}

#[test]
fn group_description_leads_to_the_confirmation() {
    let begun = Group::new(0, "trip".to_string(), String::new(), "42".to_string());
    assert_eq!(recieve_group_description(begun.clone(), None), say(Reply::EnterADescription));
    assert_eq!(
        recieve_group_description(begun, some("to the sea")),
        say_and_go(
            Reply::ConfirmGroupDetails {
                name: "trip".to_string(),
                description: "to the sea".to_string()
            },
            State::ConfirmGroup { group: trip() }
        )
    );
}

#[test]
fn confirm_group_follows_the_answer() {
    assert_eq!(confirm_group(trip(), None), say(Reply::CallbackNotFound));
    assert_eq!(
        confirm_group(trip(), some("Confirm")),
        Step { reply: None, next: None, request: Some(Request::AddGroup { group: trip() }) }
    );
    assert_eq!(
        confirm_group(trip(), some("Edit")),
        say_and_go(Reply::EnterTheGroupName, State::CreateGroup)
    );
    assert_eq!(
        confirm_group(trip(), some("Cancel")),
        say_and_go(Reply::GroupCreationCanceled, State::Start)
    );
    assert_eq!(confirm_group(trip(), some("Accept")), Step { reply: None, next: None, request: None });
}

#[test]
fn group_created_reports_the_outcome() {
    assert_eq!(group_created(Ok(())), say_and_go(Reply::GroupCreated, State::Start));
    assert_eq!(group_created(Err(DataError::IoOrEngineFailure)), say(Reply::GroupCreationFailed));
}

#[test]
fn group_ids_are_read_as_decimal_numbers() {
    let read = |text: &str| parse_group_id(&text.to_string());
    assert_eq!(read("0"), Some(0));
    assert_eq!(read("7"), Some(7));
    assert_eq!(read("42"), Some(42));
    assert_eq!(read("+42"), Some(42));
    assert_eq!(read("007"), Some(7));
    assert_eq!(read("4294967295"), Some(u32::MAX));
    assert_eq!(read("0000000000004294967295"), Some(u32::MAX));
    assert_eq!(read("4294967296"), None);
    assert_eq!(read("99999999999999999999999999"), None);
    assert_eq!(read(""), None);
    assert_eq!(read("+"), None);
    assert_eq!(read("-1"), None);
    assert_eq!(read("++1"), None);
    assert_eq!(read(" 1"), None);
    assert_eq!(read("1 "), None);
    assert_eq!(read("12a"), None);
    assert_eq!(read("١٢"), None);
    assert_eq!(read("1.5"), None);
}

#[test]
fn group_ids_are_read_as_the_standard_parser_reads_them() {
    let samples = [
        "0", "1", "10", "+0", "+10", "-0", "", "+", "4294967295", "4294967296", "42949672950",
        "00", "+00012", "1_000", "0x10", "１２", "12\n", "3000000000",
    ];
    for sample in samples {
        assert_eq!(parse_group_id(&sample.to_string()), sample.parse::<u32>().ok(), "{:?}", sample);
    }
}

#[test]
fn choice_of_a_group_asks_the_store_for_it() {
    assert_eq!(
        recieve_group_user_add(None),
        say_and_go(Reply::GroupNotInResponse, State::Start)
    );
    assert_eq!(
        recieve_group_user_add(some("12")),
        Step { reply: None, next: None, request: Some(Request::GetGroup { group_id: 12 }) }
    );
    assert_eq!(recieve_group_user_add(some("twelve")), Step { reply: None, next: None, request: None });
}

#[test]
fn group_chosen_reports_the_outcome() {
    assert_eq!(
        group_chosen(Ok(trip())),
        say_and_go(Reply::SelectUserToAdd, State::RecieveUserToAdd { group: trip() })
    );
    assert_eq!(
        group_chosen(Err(DataError::NotFound)),
        say_and_go(Reply::GroupNotInDatabase, State::Start)
    );
}

#[test]
fn memberships_lead_to_the_lookup_of_their_groups() {
    assert_eq!(memberships_found(Err(DataError::IoOrEngineFailure)), say(Reply::SelectGroup));
    let memberships = vec![
        GroupMembership::new("42".to_string(), 3),
        GroupMembership::new("42".to_string(), 1),
        GroupMembership::new("42".to_string(), 3),
    ];
    assert_eq!(
        memberships_found(Ok(memberships)),
        Step { reply: None, next: None, request: Some(Request::GetGroups { group_ids: vec![3, 1, 3] }) }
    );
    assert_eq!(
        memberships_found(Ok(vec![])),
        Step { reply: None, next: None, request: Some(Request::GetGroups { group_ids: vec![] }) }
    );
}

#[test]
fn groups_that_were_not_found_are_not_offered() {
    let other = Group::new(2, "home".to_string(), "rent".to_string(), "42".to_string());
    let found = vec![Ok(trip()), Err(DataError::NotFound), Ok(other.clone()), Err(DataError::Unknown)];
    assert_eq!(
        groups_fetched(found),
        say_and_go(
            Reply::SelectGroupFrom { groups: vec![trip(), other] },
            State::RecieveGroupToAddUser
        )
    );
    assert_eq!(
        groups_fetched(vec![]),
        say_and_go(Reply::SelectGroupFrom { groups: vec![] }, State::RecieveGroupToAddUser)
    );
}

#[test]
fn messages_are_taken_by_the_state() {
    assert_eq!(
        on_message(State::RegisterUser, some("Alice"), some("al"), "42".to_string()),
        register_name(some("Alice"), some("al"))
    );
    assert_eq!(
        on_message(State::CreateGroup, some("trip"), None, "42".to_string()),
        create_group(some("trip"), "42".to_string())
    );
    let begun = Group::new(0, "trip".to_string(), String::new(), "42".to_string());
    assert_eq!(
        on_message(
            State::RecieveGroupDescription { group: begun.clone() },
            some("to the sea"),
            None,
            "42".to_string()
        ),
        recieve_group_description(begun, some("to the sea"))
    );
    for state in [State::Start, State::ConfirmUser { data: alice() }, State::AddExpense] {
        assert_eq!(on_message(state, some("hello"), some("al"), "42".to_string()), say(Reply::InvalidState));
    }
}

#[test]
fn answers_are_taken_by_the_state() {
    assert_eq!(
        on_callback(State::ConfirmUser { data: alice() }, some("Accept"), "42".to_string()),
        confirm_user(alice(), some("Accept"), "42".to_string())
    );
    assert_eq!(
        on_callback(State::ConfirmGroup { group: trip() }, some("Confirm"), "42".to_string()),
        confirm_group(trip(), some("Confirm"))
    );
    assert_eq!(
        on_callback(State::RecieveGroupToAddUser, some("5"), "42".to_string()),
        recieve_group_user_add(some("5"))
    );
    for state in [State::Start, State::RegisterUser, State::CreateGroup] {
        assert_eq!(on_callback(state, some("Accept"), "42".to_string()), say(Reply::InvalidState));
    }
}

#[test]
fn registration_from_start_to_end() {
    let mut state = State::Start;
    let step = on_command(&state, Command::Register, "42".to_string()).unwrap();
    assert_eq!(step.reply, Some(Reply::EnterYourName));
    state = step.next.unwrap();
    let step = on_message(state, some("Alice"), some("al"), "42".to_string());
    state = step.next.unwrap();
    assert_eq!(state, State::ConfirmUser { data: alice() });
    let step = on_callback(state, some("Accept"), "42".to_string());
    assert_eq!(step.next, None);
    let user = match step.request {
        Some(Request::AddUser { user }) => user,
        other => panic!("unexpected request {:?}", other),
    };
    assert_eq!(user.user_id, "42");
    assert_eq!(user.name, "Alice");
    assert_eq!(user.username, "al");
    let step = user_registered(Ok(()));
    assert_eq!(step.next, Some(State::Start));
    assert_eq!(step.reply, Some(Reply::Registered));
}
