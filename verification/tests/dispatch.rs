use perlsub::dispatch::{Command, Dispatch, DispatchError, Outcome, Report, Step};
use perlsub::identity::{encode_reply_id, unique_id};
use perlsub::pipeline::ExecutionError;
use perlsub::update::{Message, Referenced, Update};

const CHAT: i64 = -1001234567890;

fn referenced(text: Option<&str>) -> Referenced {
    Referenced { id: 40, chat_id: CHAT, text: text.map(|t| t.to_string()) }
}

fn inbound(text: Option<&str>, reply_to: Option<Referenced>) -> Message {
    Message { id: 41, chat_id: CHAT, text: text.map(|t| t.to_string()), reply_to }
}

fn key() -> [u8; 16] {
    unique_id(&inbound(None, None))
}

fn expect_finish(command: Command, outcome: Outcome) {
    assert_eq!(command, Command::Finish(outcome));
}

/// Runs a delivery up to the return of the permit.
fn after_run(update: Update, result: Result<&str, ExecutionError>) -> (Dispatch, Command) {
    let (state, command) = Dispatch::begin(update);
    assert_eq!(command, Command::AcquirePermit);
    let (state, command) = state.step(Report::PermitGranted);
    assert!(matches!(command, Command::Execute { .. }));
    let (state, command) = state.step(Report::Executed(result.map(|t| t.to_string())));
    assert_eq!(command, Command::ReleasePermit);
    state.step(Report::PermitReturned)
}

fn new_message(text: &str) -> Update {
    Update::Message(inbound(Some(text), Some(referenced(Some("foo baz")))))
}

fn edited_message(text: &str) -> Update {
    Update::EditedMessage(inbound(Some(text), Some(referenced(Some("foo baz")))))
}

#[test]
fn new_message_is_replied_to_and_recorded() {
    let (state, command) = Dispatch::begin(new_message("s/foo/bar/"));
    assert_eq!(state.step, Step::AwaitingPermit);
    assert_eq!(command, Command::AcquirePermit);
    let (state, command) = state.step(Report::PermitGranted);
    assert_eq!(state.step, Step::Executing);
    assert_eq!(
        command,
        Command::Execute {
            expressions: vec!["s/foo/bar/".to_string()],
            input: "foo baz".to_string(),
        }
    );
    let (state, command) = state.step(Report::Executed(Ok("bar baz".to_string())));
    assert_eq!(state.step, Step::Releasing);
    assert_eq!(command, Command::ReleasePermit);
    let (state, command) = state.step(Report::PermitReturned);
    assert_eq!(state.step, Step::Sending);
    assert_eq!(
        command,
        Command::SendReply { chat_id: CHAT, reply_to: 40, text: "bar baz".to_string() }
    );
    let (state, command) = state.step(Report::Sent { id: 42 });
    assert_eq!(state.step, Step::Storing);
    assert_eq!(command, Command::Store { key: key(), value: encode_reply_id(42) });
    assert_eq!(command, Command::Store { key: key(), value: [42, 0, 0, 0] });
    let (state, command) = state.step(Report::Stored);
    assert_eq!(state.step, Step::Done);
    expect_finish(command, Outcome::Replied);
}

#[test]
fn edited_message_edits_the_recorded_reply() {
    let (state, command) = after_run(edited_message("s/foo/bar/"), Ok("bar baz"));
    assert_eq!(state.step, Step::LookingUp);
    assert_eq!(command, Command::Lookup { key: key() });
    let (state, command) = state.step(Report::Found(Some(encode_reply_id(42).to_vec())));
    assert_eq!(state.step, Step::Editing);
    assert_eq!(
        command,
        Command::EditReply { chat_id: CHAT, message_id: 42, text: "bar baz".to_string() }
    );
    let (state, command) = state.step(Report::Edited);
    assert_eq!(state.step, Step::Done);
    expect_finish(command, Outcome::Edited);
}

#[test]
fn edit_looks_up_what_the_new_message_stored() {
    let (state, _) = after_run(new_message("s/foo/bar/"), Ok("bar baz"));
    let (_, stored) = state.step(Report::Sent { id: 77 });
    let (stored_key, stored_value) = match stored {
        Command::Store { key, value } => (key, value),
        other => panic!("unexpected {:?}", other),
    };
    let (state, lookup) = after_run(edited_message("s/foo/qux/"), Ok("qux baz"));
    assert_eq!(lookup, Command::Lookup { key: stored_key });
    let (_, command) = state.step(Report::Found(Some(stored_value.to_vec())));
    assert_eq!(
        command,
        Command::EditReply { chat_id: CHAT, message_id: 77, text: "qux baz".to_string() }
    );
}

#[test]
fn edited_message_without_expressions_is_suppressed() {
    let (state, command) = Dispatch::begin(edited_message("never mind"));
    assert_eq!(state.step, Step::Done);
    expect_finish(command, Outcome::Suppressed);
}

#[test]
fn message_replying_to_a_message_without_text_is_suppressed() {
    let update = Update::Message(inbound(Some("s/foo/bar/"), Some(referenced(None))));
    let (state, command) = Dispatch::begin(update);
    assert_eq!(state.step, Step::Done);
    expect_finish(command, Outcome::Suppressed);
}

#[test]
fn message_that_is_no_reply_is_suppressed() {
    let (_, command) = Dispatch::begin(Update::Message(inbound(Some("s/foo/bar/"), None)));
    expect_finish(command, Outcome::Suppressed);
}

#[test]
fn message_without_text_is_suppressed() {
    let update = Update::Message(inbound(None, Some(referenced(Some("foo baz")))));
    let (_, command) = Dispatch::begin(update);
    expect_finish(command, Outcome::Suppressed);
}

#[test]
fn message_without_expressions_is_suppressed() {
    for text in ["hello", "", ";del", "s", "s|a|b|", " s/a/b/"] {
        let (state, command) = Dispatch::begin(new_message(text));
        assert_eq!(state.step, Step::Done, "for {:?}", text);
        expect_finish(command, Outcome::Suppressed);
    }
}

#[test]
fn other_updates_are_suppressed() {
    let (state, command) = Dispatch::begin(Update::Other);
    assert_eq!(state.step, Step::Done);
    expect_finish(command, Outcome::Suppressed);
}

#[test]
fn only_the_expressions_are_run_in_order() {
    let (state, _) = Dispatch::begin(new_message("s/foo/bar/\nlooks right?\n;del\ns{baz}{qux}"));
    assert!(state.delete_after);
    let (_, command) = state.step(Report::PermitGranted);
    assert_eq!(
        command,
        Command::Execute {
            expressions: vec!["s/foo/bar/".to_string(), "s{baz}{qux}".to_string()],
            input: "foo baz".to_string(),
        }
    );
}

#[test]
fn empty_result_is_suppressed() {
    let (state, command) = after_run(new_message("s/foo/bar/"), Ok(""));
    assert_eq!(state.step, Step::Done);
    expect_finish(command, Outcome::Suppressed);
    let (_, command) = after_run(edited_message("s/foo/bar/"), Ok(""));
    expect_finish(command, Outcome::Suppressed);
}

#[test]
fn empty_result_is_suppressed_without_deletion() {
    let (state, command) = after_run(new_message("s/foo/bar/\n;del"), Ok(""));
    assert_eq!(state.step, Step::Done);
    expect_finish(command, Outcome::Suppressed);
}

#[test]
fn failed_run_fails_the_delivery_after_the_permit_is_back() {
    let error = ExecutionError::AbnormalExit { code: Some(1) };
    let (state, command) = Dispatch::begin(new_message("s/foo/bar/\n;del"));
    assert_eq!(command, Command::AcquirePermit);
    let (state, _) = state.step(Report::PermitGranted);
    let (state, command) = state.step(Report::Executed(Err(error)));
    assert_eq!(state.step, Step::Releasing);
    assert_eq!(command, Command::ReleasePermit);
    let (state, command) = state.step(Report::PermitReturned);
    assert_eq!(state.step, Step::Done);
    expect_finish(command, Outcome::Failed(DispatchError::Execution(error)));
}

#[test]
fn each_run_failure_is_passed_on() {
    for error in [
        ExecutionError::Spawn,
        ExecutionError::WriteInput,
        ExecutionError::ReadOutput,
        ExecutionError::Wait,
        ExecutionError::AbnormalExit { code: None },
        ExecutionError::OutOfOrder,
    ] {
        let (_, command) = after_run(edited_message("s/foo/bar/"), Err(error));
        expect_finish(command, Outcome::Failed(DispatchError::Execution(error)));
    }
}

#[test]
fn closed_gate_fails_the_delivery() {
    let (state, _) = Dispatch::begin(new_message("s/foo/bar/"));
    let (state, command) = state.step(Report::PermitRefused);
    assert_eq!(state.step, Step::Done);
    expect_finish(command, Outcome::Failed(DispatchError::GateClosed));
}

#[test]
fn edit_without_entry_fails_as_missing() {
    let (state, _) = after_run(edited_message("s/foo/bar/"), Ok("bar baz"));
    let (state, command) = state.step(Report::Found(None));
    assert_eq!(state.step, Step::Done);
    expect_finish(command, Outcome::Failed(DispatchError::MissingEntry { message_id: 41 }));
}

#[test]
fn edit_with_malformed_entry_fails() {
    for bytes in [vec![], vec![1u8, 2, 3], vec![1u8, 2, 3, 4, 5]] {
        let found = bytes.len();
        let (state, _) = after_run(edited_message("s/foo/bar/"), Ok("bar baz"));
        let (_, command) = state.step(Report::Found(Some(bytes)));
        expect_finish(command, Outcome::Failed(DispatchError::MalformedEntry { found }));
    }
}

#[test]
fn edit_with_unreadable_store_fails() {
    let (state, _) = after_run(edited_message("s/foo/bar/"), Ok("bar baz"));
    let (_, command) = state.step(Report::LookupFailed);
    expect_finish(command, Outcome::Failed(DispatchError::Store));
}

#[test]
fn unchanged_edit_counts_as_done() {
    let (state, _) = after_run(edited_message("s/foo/bar/"), Ok("bar baz"));
    let (state, _) = state.step(Report::Found(Some(vec![42, 0, 0, 0])));
    let (state, command) = state.step(Report::Unchanged);
    assert_eq!(state.step, Step::Done);
    expect_finish(command, Outcome::Edited);
}

#[test]
fn refused_edit_fails() {
    let (state, _) = after_run(edited_message("s/foo/bar/"), Ok("bar baz"));
    let (state, _) = state.step(Report::Found(Some(vec![42, 0, 0, 0])));
    let (_, command) = state.step(Report::EditFailed);
    expect_finish(command, Outcome::Failed(DispatchError::Transport));
}

#[test]
fn refused_send_fails_and_records_nothing() {
    let (state, _) = after_run(new_message("s/foo/bar/"), Ok("bar baz"));
    let (state, command) = state.step(Report::SendFailed);
    assert_eq!(state.step, Step::Done);
    expect_finish(command, Outcome::Failed(DispatchError::Transport));
}

#[test]
fn unwritable_store_fails_after_the_reply() {
    let (state, _) = after_run(new_message("s/foo/bar/"), Ok("bar baz"));
    let (state, _) = state.step(Report::Sent { id: 42 });
    let (_, command) = state.step(Report::StoreFailed);
    expect_finish(command, Outcome::Failed(DispatchError::Store));
}

#[test]
fn deletion_follows_a_reply() {
    let (state, _) = after_run(new_message("s/foo/bar/\n;del"), Ok("bar baz"));
    let (state, command) = state.step(Report::Sent { id: 42 });
    assert_eq!(command, Command::Store { key: key(), value: [42, 0, 0, 0] });
    let (state, command) = state.step(Report::Stored);
    assert_eq!(state.step, Step::Deleting);
    assert_eq!(command, Command::Delete { chat_id: CHAT, message_id: 41 });
    let (state, command) = state.step(Report::Deleted);
    assert_eq!(state.step, Step::Done);
    expect_finish(command, Outcome::Replied);
}

#[test]
fn deletion_follows_an_edit() {
    let (state, _) = after_run(edited_message(";del\ns/foo/bar/"), Ok("bar baz"));
    let (state, _) = state.step(Report::Found(Some(vec![42, 0, 0, 0])));
    let (state, command) = state.step(Report::Edited);
    assert_eq!(command, Command::Delete { chat_id: CHAT, message_id: 41 });
    let (_, command) = state.step(Report::Deleted);
    expect_finish(command, Outcome::Edited);
}

#[test]
fn deletion_follows_a_failed_reply() {
    let (state, _) = after_run(new_message("s/foo/bar/\n;del"), Ok("bar baz"));
    let (state, command) = state.step(Report::SendFailed);
    assert_eq!(state.step, Step::Deleting);
    assert_eq!(command, Command::Delete { chat_id: CHAT, message_id: 41 });
    let (_, command) = state.step(Report::Deleted);
    expect_finish(command, Outcome::Failed(DispatchError::Transport));
}

#[test]
fn deletion_follows_a_failed_store() {
    let (state, _) = after_run(new_message("s/foo/bar/\n;del"), Ok("bar baz"));
    let (state, _) = state.step(Report::Sent { id: 42 });
    let (state, command) = state.step(Report::StoreFailed);
    assert_eq!(command, Command::Delete { chat_id: CHAT, message_id: 41 });
    let (_, command) = state.step(Report::Deleted);
    expect_finish(command, Outcome::Failed(DispatchError::Store));
}

#[test]
fn deletion_follows_a_failed_edit() {
    let (state, _) = after_run(edited_message("s/foo/bar/\n;del"), Ok("bar baz"));
    let (state, command) = state.step(Report::Found(None));
    assert_eq!(command, Command::Delete { chat_id: CHAT, message_id: 41 });
    let (_, command) = state.step(Report::Deleted);
    expect_finish(command, Outcome::Failed(DispatchError::MissingEntry { message_id: 41 }));
    let (state, _) = after_run(edited_message("s/foo/bar/\n;del"), Ok("bar baz"));
    let (state, _) = state.step(Report::Found(Some(vec![42, 0, 0, 0])));
    let (state, command) = state.step(Report::EditFailed);
    assert_eq!(command, Command::Delete { chat_id: CHAT, message_id: 41 });
    let (_, command) = state.step(Report::DeleteFailed);
    expect_finish(command, Outcome::Failed(DispatchError::Transport));
}

#[test]
fn failed_deletion_fails_the_delivery() {
    let (state, _) = after_run(new_message("s/foo/bar/\n;del"), Ok("bar baz"));
    let (state, _) = state.step(Report::Sent { id: 42 });
    let (state, _) = state.step(Report::Stored);
    let (state, command) = state.step(Report::DeleteFailed);
    assert_eq!(state.step, Step::Done);
    expect_finish(command, Outcome::Failed(DispatchError::Transport));
}

#[test]
fn no_deletion_without_the_directive() {
    let (state, _) = after_run(new_message("s/foo/bar/\n; del"), Ok("bar baz"));
    assert!(!state.delete_after);
    let (state, _) = state.step(Report::Sent { id: 42 });
    let (_, command) = state.step(Report::Stored);
    expect_finish(command, Outcome::Replied);
}

#[test]
fn reply_goes_to_the_chat_of_the_referenced_message() {
    let elsewhere = Referenced { id: 7, chat_id: 99, text: Some("foo".to_string()) };
    let update = Update::Message(inbound(Some("s/foo/bar/"), Some(elsewhere)));
    let (_, command) = after_run(update, Ok("bar"));
    assert_eq!(command, Command::SendReply { chat_id: 99, reply_to: 7, text: "bar".to_string() });
}

#[test]
fn reports_out_of_order_fail_the_delivery() {
    let (state, _) = Dispatch::begin(new_message("s/foo/bar/"));
    let (state, command) = state.step(Report::Stored);
    assert_eq!(state.step, Step::Done);
    expect_finish(command, Outcome::Failed(DispatchError::OutOfOrder));
    let (_, command) = state.step(Report::PermitGranted);
    expect_finish(command, Outcome::Failed(DispatchError::OutOfOrder));
}

#[test]
fn permit_is_returned_whatever_is_reported_of_the_run() {
    let (state, _) = Dispatch::begin(new_message("s/foo/bar/"));
    let (state, _) = state.step(Report::PermitGranted);
    let (state, command) = state.step(Report::Deleted);
    assert_eq!(state.step, Step::Releasing);
    assert_eq!(command, Command::ReleasePermit);
    let (_, command) = state.step(Report::PermitReturned);
    expect_finish(command, Outcome::Failed(DispatchError::OutOfOrder));
}
