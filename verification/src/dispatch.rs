//! The update dispatcher, as a state machine: what is done for one delivery
//! of the transport, from its arrival to a reply, an edit, silence or a
//! failure.
//!
//! The machine decides; its driver performs each command it is handed and
//! reports what happened.

use crate::filter::{expressions_of, filter_exprs, has_delete_directive, wants_deletion};
use crate::identity::{
    decode_reply_id,
    encode_reply_id,
    event_key,
    key_of,
    reply_bytes,
    reply_of,
};
use crate::pipeline::ExecutionError;
use crate::update::{Message, MessageView, Update, UpdateView};
use vstd::prelude::*;

verus! {

/// Why a delivery ended without the reply or edit that it called for.
#[derive(Clone, Copy, Debug, PartialEq, Eq)]
pub enum DispatchError {
    /// No permit could be had from the concurrency gate.
    GateClosed,
    /// The sandboxed run gave no result.
    Execution(ExecutionError),
    /// The correlation store could not be read or written.
    Store,
    /// An edited message has no entry in the correlation store.
    MissingEntry { message_id: i32 },
    /// The entry of an edited message is not a reply id; `found` is its
    /// length.
    MalformedEntry { found: usize },
    /// The transport refused to send, edit or delete.
    Transport,
    /// The driver reported something that the pending command cannot give.
    OutOfOrder,
}

/// How a delivery ended.
#[derive(Clone, Copy, Debug, PartialEq, Eq)]
pub enum Outcome {
    /// A new reply was sent and recorded.
    Replied,
    /// The reply sent earlier now shows the new result.
    Edited,
    /// There was nothing to say.
    Suppressed,
    /// The delivery failed.
    Failed(DispatchError),
}

/// How far the handling of a delivery has come.
#[derive(Clone, Copy, Debug, PartialEq, Eq)]
pub enum Step {
    AwaitingPermit,
    Executing,
    Releasing,
    LookingUp,
    Editing,
    Sending,
    Storing,
    Deleting,
    Done,
}

/// What the driver reports.
#[derive(Debug, PartialEq, Eq)]
pub enum Report {
    /// The concurrency gate gave a permit.
    PermitGranted,
    /// The concurrency gate gives no permits any more.
    PermitRefused,
    /// The sandboxed run ended with this result.
    Executed(Result<String, ExecutionError>),
    /// The permit has been returned.
    PermitReturned,
    /// The store holds this value under the key, or none.
    Found(Option<Vec<u8>>),
    /// The store could not be read.
    LookupFailed,
    /// The reply was sent and is the message `id`.
    Sent { id: i32 },
    /// The reply could not be sent.
    SendFailed,
    /// The earlier reply shows the new text.
    Edited,
    /// The earlier reply already showed this very text.
    Unchanged,
    /// The earlier reply could not be edited.
    EditFailed,
    /// The store holds the entry.
    Stored,
    /// The store could not be written.
    StoreFailed,
    /// The inbound message is deleted.
    Deleted,
    /// The inbound message could not be deleted.
    DeleteFailed,
}

/// What the driver is to do next.
#[derive(Debug, PartialEq, Eq)]
pub enum Command {
    /// Wait for a permit of the concurrency gate.
    AcquirePermit,
    /// Run the expressions on the input in the sandbox.
    Execute { expressions: Vec<String>, input: String },
    /// Give the permit back.
    ReleasePermit,
    /// Read the store under `key`.
    Lookup { key: [u8; 16] },
    /// Send `text` to `chat_id` as a reply to the message `reply_to`.
    SendReply { chat_id: i64, reply_to: i32, text: String },
    /// Replace the text of the message `message_id` in `chat_id`.
    EditReply { chat_id: i64, message_id: i32, text: String },
    /// Write `value` to the store under `key`.
    Store { key: [u8; 16], value: [u8; 4] },
    /// Delete the message `message_id` in `chat_id`.
    Delete { chat_id: i64, message_id: i32 },
    /// The delivery is handled.
    Finish(Outcome),
}

/// The handling of one delivery in progress.
#[derive(Debug, PartialEq, Eq)]
pub struct Dispatch {
    pub step: Step,
    /// Whether the delivery is a new version of a message seen before.
    pub edited: bool,
    /// The inbound message and its chat.
    pub message_id: i32,
    pub chat_id: i64,
    /// The message that the inbound message replies to, and its chat.
    pub target_id: i32,
    pub target_chat_id: i64,
    /// Whether the inbound message asks to be deleted.
    pub delete_after: bool,
    /// What is still to be run.
    pub expressions: Vec<String>,
    pub input: String,
    /// What the run gave.
    pub text: String,
    /// How the delivery ends, once that is known.
    pub outcome: Outcome,
}

/// `Report` with its texts and bytes as sequences.
pub enum ReportView {
    PermitGranted,
    PermitRefused,
    Executed(Result<Seq<char>, ExecutionError>),
    PermitReturned,
    Found(Option<Seq<u8>>),
    LookupFailed,
    Sent { id: i32 },
    SendFailed,
    Edited,
    Unchanged,
    EditFailed,
    Stored,
    StoreFailed,
    Deleted,
    DeleteFailed,
}

/// `Command` with its texts and bytes as sequences.
pub enum CommandView {
    AcquirePermit,
    Execute { expressions: Seq<Seq<char>>, input: Seq<char> },
    ReleasePermit,
    Lookup { key: Seq<u8> },
    SendReply { chat_id: i64, reply_to: i32, text: Seq<char> },
    EditReply { chat_id: i64, message_id: i32, text: Seq<char> },
    Store { key: Seq<u8>, value: Seq<u8> },
    Delete { chat_id: i64, message_id: i32 },
    Finish(Outcome),
}

/// `Dispatch` with its texts as sequences of characters.
pub struct DispatchView {
    pub step: Step,
    pub edited: bool,
    pub message_id: i32,
    pub chat_id: i64,
    pub target_id: i32,
    pub target_chat_id: i64,
    pub delete_after: bool,
    pub expressions: Seq<Seq<char>>,
    pub input: Seq<char>,
    pub text: Seq<char>,
    pub outcome: Outcome,
}

impl View for Report {
    type V = ReportView;

    open spec fn view(&self) -> ReportView {
        match *self {
            Report::PermitGranted => ReportView::PermitGranted,
            Report::PermitRefused => ReportView::PermitRefused,
            Report::Executed(Ok(text)) => ReportView::Executed(Ok(text@)),
            Report::Executed(Err(e)) => ReportView::Executed(Err(e)),
            Report::PermitReturned => ReportView::PermitReturned,
            Report::Found(Some(bytes)) => ReportView::Found(Some(bytes@)),
            Report::Found(None) => ReportView::Found(None),
            Report::LookupFailed => ReportView::LookupFailed,
            Report::Sent { id } => ReportView::Sent { id },
            Report::SendFailed => ReportView::SendFailed,
            Report::Edited => ReportView::Edited,
            Report::Unchanged => ReportView::Unchanged,
            Report::EditFailed => ReportView::EditFailed,
            Report::Stored => ReportView::Stored,
            Report::StoreFailed => ReportView::StoreFailed,
            Report::Deleted => ReportView::Deleted,
            Report::DeleteFailed => ReportView::DeleteFailed,
        }
    }
}

impl View for Command {
    type V = CommandView;

    open spec fn view(&self) -> CommandView {
        match *self {
            Command::AcquirePermit => CommandView::AcquirePermit,
            Command::Execute { expressions, input } => CommandView::Execute {
                expressions: expressions.deep_view(),
                input: input@,
            },
            Command::ReleasePermit => CommandView::ReleasePermit,
            Command::Lookup { key } => CommandView::Lookup { key: key@ },
            Command::SendReply { chat_id, reply_to, text } => CommandView::SendReply {
                chat_id,
                reply_to,
                text: text@,
            },
            Command::EditReply { chat_id, message_id, text } => CommandView::EditReply {
                chat_id,
                message_id,
                text: text@,
            },
            Command::Store { key, value } => CommandView::Store { key: key@, value: value@ },
            Command::Delete { chat_id, message_id } => CommandView::Delete { chat_id, message_id },
            Command::Finish(outcome) => CommandView::Finish(outcome),
        }
    }
}

impl View for Dispatch {
    type V = DispatchView;

    open spec fn view(&self) -> DispatchView {
        DispatchView {
            step: self.step,
            edited: self.edited,
            message_id: self.message_id,
            chat_id: self.chat_id,
            target_id: self.target_id,
            target_chat_id: self.target_chat_id,
            delete_after: self.delete_after,
            expressions: self.expressions.deep_view(),
            input: self.input@,
            text: self.text@,
            outcome: self.outcome,
        }
    }
}

/// The state of a delivery for which nothing is done.
pub open spec fn at_rest(outcome: Outcome) -> DispatchView {
    DispatchView {
        step: Step::Done,
        edited: false,
        message_id: 0,
        chat_id: 0,
        target_id: 0,
        target_chat_id: 0,
        delete_after: false,
        expressions: Seq::empty(),
        input: Seq::empty(),
        text: Seq::empty(),
        outcome,
    }
}

/// Silence: no reply, no error, nothing recorded.
pub open spec fn suppressed() -> (DispatchView, CommandView) {
    (at_rest(Outcome::Suppressed), CommandView::Finish(Outcome::Suppressed))
}

/// Whether `message` calls for a sandboxed run: it replies to a message that
/// has text, and has itself a text with at least one substitution expression.
pub open spec fn calls_for_run(message: MessageView) -> bool {
    &&& message.reply_to matches Some(referenced)
    &&& referenced.text is Some
    &&& message.text matches Some(raw)
    &&& expressions_of(raw).len() > 0
}

/// How the handling of `message` begins.
pub open spec fn admitted(message: MessageView, edited: bool) -> (DispatchView, CommandView) {
    if calls_for_run(message) {
        (
            DispatchView {
                step: Step::AwaitingPermit,
                edited,
                message_id: message.id,
                chat_id: message.chat_id,
                target_id: message.reply_to->0.id,
                target_chat_id: message.reply_to->0.chat_id,
                delete_after: has_delete_directive(message.text->0),
                expressions: expressions_of(message.text->0),
                input: message.reply_to->0.text->0,
                text: Seq::empty(),
                outcome: Outcome::Suppressed,
            },
            CommandView::AcquirePermit,
        )
    } else {
        suppressed()
    }
}

/// How the handling of `update` begins.
pub open spec fn started(update: UpdateView) -> (DispatchView, CommandView) {
    match update {
        UpdateView::Message(message) => admitted(message, false),
        UpdateView::EditedMessage(message) => admitted(message, true),
        UpdateView::Other => suppressed(),
    }
}

/// The end of a delivery.
pub open spec fn finished(state: DispatchView, outcome: Outcome) -> (DispatchView, CommandView) {
    (DispatchView { step: Step::Done, outcome, ..state }, CommandView::Finish(outcome))
}

/// The end of the reply or edit of a delivery: the inbound message is
/// deleted if it asks for that, however the reply or edit went.
pub open spec fn concluded(state: DispatchView, outcome: Outcome) -> (
    DispatchView,
    CommandView,
) {
    if state.delete_after {
        (
            DispatchView { step: Step::Deleting, outcome, ..state },
            CommandView::Delete { chat_id: state.chat_id, message_id: state.message_id },
        )
    } else {
        finished(state, outcome)
    }
}

/// What follows the sandboxed run once its permit is returned.
pub open spec fn released(state: DispatchView) -> (DispatchView, CommandView) {
    if state.outcome is Failed {
        finished(state, state.outcome)
    } else if state.text.len() == 0 {
        finished(state, Outcome::Suppressed)
    } else if state.edited {
        (
            DispatchView { step: Step::LookingUp, ..state },
            CommandView::Lookup { key: event_key(state.message_id, state.chat_id) },
        )
    } else {
        (
            DispatchView { step: Step::Sending, text: Seq::empty(), ..state },
            CommandView::SendReply {
                chat_id: state.target_chat_id,
                reply_to: state.target_id,
                text: state.text,
            },
        )
    }
}

/// What follows the lookup of an edited message's entry.
pub open spec fn looked_up(state: DispatchView, found: Option<Seq<u8>>) -> (
    DispatchView,
    CommandView,
) {
    match found {
        None => concluded(
            state,
            Outcome::Failed(DispatchError::MissingEntry { message_id: state.message_id }),
        ),
        Some(bytes) => match reply_of(bytes) {
            Some(reply_id) => (
                DispatchView { step: Step::Editing, text: Seq::empty(), ..state },
                CommandView::EditReply {
                    chat_id: state.chat_id,
                    message_id: reply_id,
                    text: state.text,
                },
            ),
            None => concluded(
                state,
                Outcome::Failed(DispatchError::MalformedEntry { found: bytes.len() as usize }),
            ),
        },
    }
}

/// The outcome of a delivery whose inbound message could not be deleted.
pub open spec fn undeleted(outcome: Outcome) -> Outcome {
    if outcome is Failed {
        outcome
    } else {
        Outcome::Failed(DispatchError::Transport)
    }
}

/// The state after `report`, and what the driver is to do next.
pub open spec fn advanced(state: DispatchView, report: ReportView) -> (DispatchView, CommandView) {
    match (state.step, report) {
        (Step::AwaitingPermit, ReportView::PermitGranted) => (
            DispatchView {
                step: Step::Executing,
                expressions: Seq::empty(),
                input: Seq::empty(),
                ..state
            },
            CommandView::Execute { expressions: state.expressions, input: state.input },
        ),
        (Step::AwaitingPermit, ReportView::PermitRefused) => finished(
            state,
            Outcome::Failed(DispatchError::GateClosed),
        ),
        (Step::Executing, ReportView::Executed(Ok(text))) => (
            DispatchView { step: Step::Releasing, text, ..state },
            CommandView::ReleasePermit,
        ),
        (Step::Executing, ReportView::Executed(Err(e))) => (
            DispatchView {
                step: Step::Releasing,
                outcome: Outcome::Failed(DispatchError::Execution(e)),
                ..state
            },
            CommandView::ReleasePermit,
        ),
        (Step::Executing, _) => (
            DispatchView {
                step: Step::Releasing,
                outcome: Outcome::Failed(DispatchError::OutOfOrder),
                ..state
            },
            CommandView::ReleasePermit,
        ),
        (Step::Releasing, ReportView::PermitReturned) => released(state),
        (Step::LookingUp, ReportView::Found(found)) => looked_up(state, found),
        (Step::LookingUp, ReportView::LookupFailed) => concluded(
            state,
            Outcome::Failed(DispatchError::Store),
        ),
        (Step::Editing, ReportView::Edited) => concluded(state, Outcome::Edited),
        (Step::Editing, ReportView::Unchanged) => concluded(state, Outcome::Edited),
        (Step::Editing, ReportView::EditFailed) => concluded(
            state,
            Outcome::Failed(DispatchError::Transport),
        ),
        (Step::Sending, ReportView::Sent { id }) => (
            DispatchView { step: Step::Storing, ..state },
            CommandView::Store {
                key: event_key(state.message_id, state.chat_id),
                value: reply_bytes(id),
            },
        ),
        (Step::Sending, ReportView::SendFailed) => concluded(
            state,
            Outcome::Failed(DispatchError::Transport),
        ),
        (Step::Storing, ReportView::Stored) => concluded(state, Outcome::Replied),
        (Step::Storing, ReportView::StoreFailed) => concluded(
            state,
            Outcome::Failed(DispatchError::Store),
        ),
        (Step::Deleting, ReportView::Deleted) => finished(state, state.outcome),
        (Step::Deleting, ReportView::DeleteFailed) => finished(state, undeleted(state.outcome)),
        _ => finished(state, Outcome::Failed(DispatchError::OutOfOrder)),
    }
}

impl Dispatch {
    /// The state of a delivery for which nothing is done.
    fn rest(outcome: Outcome) -> (state: Dispatch)
        ensures
            state@ == at_rest(outcome),
    {
        let state = Dispatch {
            step: Step::Done,
            edited: false,
            message_id: 0,
            chat_id: 0,
            target_id: 0,
            target_chat_id: 0,
            delete_after: false,
            expressions: Vec::new(),
            input: String::new(),
            text: String::new(),
            outcome,
        };
        assert(state@.expressions =~= Seq::<Seq<char>>::empty());
        state
    }

    /// Silence: no reply, no error, nothing recorded.
    fn suppress() -> (run: (Dispatch, Command))
        ensures
            (run.0@, run.1@) == suppressed(),
    {
        (Dispatch::rest(Outcome::Suppressed), Command::Finish(Outcome::Suppressed))
    }

    /// Begins the handling of `message`.
    fn receive(message: Message, edited: bool) -> (run: (Dispatch, Command))
        ensures
            (run.0@, run.1@) == admitted(message@, edited),
    {
        let Message { id, chat_id, text, reply_to } = message;
        let referenced = match reply_to {
            Some(referenced) => referenced,
            None => {
                return Dispatch::suppress();
            },
        };
        let input = match referenced.text {
            Some(input) => input,
            None => {
                return Dispatch::suppress();
            },
        };
        let raw = match text {
            Some(raw) => raw,
            None => {
                return Dispatch::suppress();
            },
        };
        let expressions = filter_exprs(raw.as_str());
        if expressions.len() == 0 {
            return Dispatch::suppress();
        }
        let delete_after = wants_deletion(raw.as_str());
        (
            Dispatch {
                step: Step::AwaitingPermit,
                edited,
                message_id: id,
                chat_id,
                target_id: referenced.id,
                target_chat_id: referenced.chat_id,
                delete_after,
                expressions,
                input,
                text: String::new(),
                outcome: Outcome::Suppressed,
            },
            Command::AcquirePermit,
        )
    }

    /// Begins the handling of `update`.
    ///
    /// Only a new or edited message that replies to a message with text, and
    /// that holds at least one substitution expression, calls for work; the
    /// first thing to do for it is to wait for a permit. Everything else ends
    /// at once in silence.
    pub fn begin(update: Update) -> (run: (Dispatch, Command))
        ensures
            (run.0@, run.1@) == started(update@),
    {
        match update {
            Update::Message(message) => Dispatch::receive(message, false),
            Update::EditedMessage(message) => Dispatch::receive(message, true),
            Update::Other => Dispatch::suppress(),
        }
    }

    /// The end of a delivery.
    fn finish(self, outcome: Outcome) -> (run: (Dispatch, Command))
        ensures
            (run.0@, run.1@) == finished(self@, outcome),
    {
        let mut state = self;
        state.step = Step::Done;
        state.outcome = outcome;
        (state, Command::Finish(outcome))
    }

    /// The end of the reply or edit of a delivery.
    fn conclude(self, outcome: Outcome) -> (run: (Dispatch, Command))
        ensures
            (run.0@, run.1@) == concluded(self@, outcome),
    {
        if self.delete_after {
            let mut state = self;
            state.step = Step::Deleting;
            state.outcome = outcome;
            let command = Command::Delete { chat_id: state.chat_id, message_id: state.message_id };
            (state, command)
        } else {
            self.finish(outcome)
        }
    }

    /// What follows the sandboxed run once its permit is returned.
    fn release(self) -> (run: (Dispatch, Command))
        ensures
            (run.0@, run.1@) == released(self@),
    {
        match self.outcome {
            Outcome::Failed(_) => {
                let outcome = self.outcome;
                return self.finish(outcome);
            },
            _ => {},
        }
        if self.text.as_str().is_empty() {
            self.finish(Outcome::Suppressed)
        } else if self.edited {
            let key = key_of(self.message_id, self.chat_id);
            let mut state = self;
            state.step = Step::LookingUp;
            (state, Command::Lookup { key })
        } else {
            let mut state = self;
            state.step = Step::Sending;
            let mut text = String::new();
            core::mem::swap(&mut text, &mut state.text);
            let command = Command::SendReply {
                chat_id: state.target_chat_id,
                reply_to: state.target_id,
                text,
            };
            (state, command)
        }
    }

    /// What follows the lookup of an edited message's entry.
    fn look_up(self, found: Option<Vec<u8>>) -> (run: (Dispatch, Command))
        ensures
            (run.0@, run.1@) == looked_up(
                self@,
                match found {
                    Some(bytes) => Some(bytes@),
                    None => None,
                },
            ),
    {
        let bytes = match found {
            Some(bytes) => bytes,
            None => {
                let message_id = self.message_id;
                return self.conclude(
                    Outcome::Failed(DispatchError::MissingEntry { message_id }),
                );
            },
        };
        match decode_reply_id(bytes.as_slice()) {
            Ok(reply_id) => {
                let mut state = self;
                state.step = Step::Editing;
                let mut text = String::new();
                core::mem::swap(&mut text, &mut state.text);
                let command = Command::EditReply {
                    chat_id: state.chat_id,
                    message_id: reply_id,
                    text,
                };
                (state, command)
            },
            Err(wrong) => self.conclude(
                Outcome::Failed(DispatchError::MalformedEntry { found: wrong.found }),
            ),
        }
    }
}

impl Dispatch {
    /// Takes what the driver reports and says what it is to do next.
    ///
    /// The sandboxed run happens between the grant of a permit and its
    /// return, and the permit is returned whatever the run gave. A failed
    /// run ends the delivery as failed, an empty result in silence. Any
    /// other result goes out as a new reply to the referenced message, which
    /// is then recorded in the store under the key of the inbound message,
    /// or, for an edited message, into the reply that the store names for
    /// it; that reply already showing the same text counts as done. After
    /// the reply or edit, however it went, the inbound message is deleted if
    /// it asks for that.
    pub fn step(self, report: Report) -> (run: (Dispatch, Command))
        ensures
            (run.0@, run.1@) == advanced(self@, report@),
    {
        match (self.step, report) {
            (Step::AwaitingPermit, Report::PermitGranted) => {
                let mut state = self;
                state.step = Step::Executing;
                let mut expressions: Vec<String> = Vec::new();
                let mut input = String::new();
                core::mem::swap(&mut expressions, &mut state.expressions);
                core::mem::swap(&mut input, &mut state.input);
                assert(state@.expressions =~= Seq::<Seq<char>>::empty());
                (state, Command::Execute { expressions, input })
            },
            (Step::AwaitingPermit, Report::PermitRefused) => self.finish(
                Outcome::Failed(DispatchError::GateClosed),
            ),
            (Step::Executing, Report::Executed(Ok(text))) => {
                let mut state = self;
                state.step = Step::Releasing;
                state.text = text;
                (state, Command::ReleasePermit)
            },
            (Step::Executing, Report::Executed(Err(e))) => {
                let mut state = self;
                state.step = Step::Releasing;
                state.outcome = Outcome::Failed(DispatchError::Execution(e));
                (state, Command::ReleasePermit)
            },
            (Step::Executing, _) => {
                let mut state = self;
                state.step = Step::Releasing;
                state.outcome = Outcome::Failed(DispatchError::OutOfOrder);
                (state, Command::ReleasePermit)
            },
            (Step::Releasing, Report::PermitReturned) => self.release(),
            (Step::LookingUp, Report::Found(found)) => self.look_up(found),
            (Step::LookingUp, Report::LookupFailed) => self.conclude(
                Outcome::Failed(DispatchError::Store),
            ),
            (Step::Editing, Report::Edited) => self.conclude(Outcome::Edited),
            (Step::Editing, Report::Unchanged) => self.conclude(Outcome::Edited),
            (Step::Editing, Report::EditFailed) => self.conclude(
                Outcome::Failed(DispatchError::Transport),
            ),
            (Step::Sending, Report::Sent { id }) => {
                let key = key_of(self.message_id, self.chat_id);
                let value = encode_reply_id(id);
                let mut state = self;
                state.step = Step::Storing;
                (state, Command::Store { key, value })
            },
            (Step::Sending, Report::SendFailed) => self.conclude(
                Outcome::Failed(DispatchError::Transport),
            ),
            (Step::Storing, Report::Stored) => self.conclude(Outcome::Replied),
            (Step::Storing, Report::StoreFailed) => self.conclude(
                Outcome::Failed(DispatchError::Store),
            ),
            (Step::Deleting, Report::Deleted) => {
                let outcome = self.outcome;
                self.finish(outcome)
            },
            (Step::Deleting, Report::DeleteFailed) => {
                let outcome = match self.outcome {
                    Outcome::Failed(e) => Outcome::Failed(e),
                    _ => Outcome::Failed(DispatchError::Transport),
                };
                self.finish(outcome)
            },
            _ => self.finish(Outcome::Failed(DispatchError::OutOfOrder)),
        }
    }
}

/// Whether `report` is an answer to the command that is pending at `step`.
pub open spec fn answers(step: Step, report: ReportView) -> bool {
    match step {
        Step::AwaitingPermit => report is PermitGranted || report is PermitRefused,
        Step::Executing => report is Executed,
        Step::Releasing => report is PermitReturned,
        Step::LookingUp => report is Found || report is LookupFailed,
        Step::Editing => report is Edited || report is Unchanged || report is EditFailed,
        Step::Sending => report is Sent || report is SendFailed,
        Step::Storing => report is Stored || report is StoreFailed,
        Step::Deleting => report is Deleted || report is DeleteFailed,
        Step::Done => false,
    }
}

/// What holds of every state that the handling of a delivery goes through:
/// there is something to run while a permit is awaited, something to say
/// once the run is over, and only new messages are replied to and recorded,
/// only edited ones looked up and edited.
pub open spec fn consistent(state: DispatchView) -> bool {
    &&& state.step == Step::AwaitingPermit ==> state.expressions.len() > 0
    &&& state.step == Step::LookingUp ==> state.text.len() > 0
    &&& state.step == Step::LookingUp || state.step == Step::Editing ==> state.edited
    &&& state.step == Step::Sending || state.step == Step::Storing ==> !state.edited
    &&& state.step == Step::AwaitingPermit || state.step == Step::Executing
        ==> !(state.outcome is Failed) && state.text.len() == 0
}

/// An upper bound on the number of reports that a delivery in `state` still
/// takes.
pub open spec fn reports_left(state: DispatchView) -> nat {
    match state.step {
        Step::AwaitingPermit => 7,
        Step::Executing => 6,
        Step::Releasing => 5,
        Step::LookingUp => 4,
        Step::Sending => 4,
        Step::Editing => 3,
        Step::Storing => 3,
        Step::Deleting => 1,
        Step::Done => 0,
    }
}

/// Every delivery begins in a consistent state, and every report leaves it
/// in one. The inbound message and its wish to be deleted never change.
pub proof fn lemma_stays_consistent(update: UpdateView, state: DispatchView, report: ReportView)
    requires
        consistent(state),
    ensures
        consistent(started(update).0),
        consistent(advanced(state, report).0),
        advanced(state, report).0.message_id == state.message_id,
        advanced(state, report).0.chat_id == state.chat_id,
        advanced(state, report).0.edited == state.edited,
        advanced(state, report).0.delete_after == state.delete_after,
{
}

/// The handling of a delivery ends: every report brings it closer to its
/// end, and it is over exactly when the driver is told so.
pub proof fn lemma_delivery_ends(state: DispatchView, report: ReportView)
    requires
        state.step != Step::Done,
    ensures
        reports_left(advanced(state, report).0) < reports_left(state),
        advanced(state, report).1 is Finish <==> advanced(state, report).0.step == Step::Done,
{
}

/// A delivery that does not call for a run ends at once in silence: no
/// permit is asked for, nothing is run, sent, edited, stored or deleted.
pub proof fn lemma_silence_without_run(update: UpdateView)
    ensures
        match update {
            UpdateView::Message(m) | UpdateView::EditedMessage(m) => if calls_for_run(m) {
                started(update).1 is AcquirePermit
            } else {
                started(update) == suppressed()
            },
            UpdateView::Other => started(update) == suppressed(),
        },
{
}

/// The sandboxed run happens under a permit: it is commanded only in answer
/// to the grant of one, with at least one expression, and whatever is
/// reported of it the next command returns the permit. No delivery ends
/// while its run is pending.
pub proof fn lemma_run_under_permit(state: DispatchView, report: ReportView)
    requires
        consistent(state),
    ensures
        advanced(state, report).1 matches CommandView::Execute { expressions, input } ==> {
            &&& state.step == Step::AwaitingPermit
            &&& report is PermitGranted
            &&& expressions == state.expressions
            &&& expressions.len() > 0
            &&& input == state.input
            &&& advanced(state, report).0.step == Step::Executing
        },
        state.step == Step::Executing ==> {
            &&& advanced(state, report).1 is ReleasePermit
            &&& advanced(state, report).0.step == Step::Releasing
        },
        advanced(state, report).1 is ReleasePermit ==> state.step == Step::Executing,
        !(advanced(state, report).1 is AcquirePermit),
{
}

/// What the run gave decides what follows the return of the permit: a
/// failure ends the delivery as failed, an empty text in silence; any other
/// text is sent as a reply to the referenced message if the message is new,
/// and the entry of the message is looked up if it is edited.
pub proof fn lemma_result_decides(state: DispatchView, result: Result<Seq<char>, ExecutionError>)
    requires
        consistent(state),
        state.step == Step::Executing,
    ensures
        ({
            let after_run = advanced(state, ReportView::Executed(result)).0;
            let next = advanced(after_run, ReportView::PermitReturned).1;
            match result {
                Err(e) => next == CommandView::Finish(
                    Outcome::Failed(DispatchError::Execution(e)),
                ),
                Ok(text) => if text.len() == 0 {
                    next == CommandView::Finish(Outcome::Suppressed)
                } else if state.edited {
                    next == (CommandView::Lookup {
                        key: event_key(state.message_id, state.chat_id),
                    })
                } else {
                    next == (CommandView::SendReply {
                        chat_id: state.target_chat_id,
                        reply_to: state.target_id,
                        text,
                    })
                },
            }
        }),
{
}

/// The store is written only for a new message whose reply was sent, under
/// the key of that message and with the id of that reply; it is read only
/// for an edited message, under the key of that message. Nothing else
/// touches it.
pub proof fn lemma_store_discipline(state: DispatchView, report: ReportView)
    requires
        consistent(state),
    ensures
        advanced(state, report).1 matches CommandView::Store { key, value } ==> {
            &&& !state.edited
            &&& state.step == Step::Sending
            &&& report matches ReportView::Sent { id }
            &&& key == event_key(state.message_id, state.chat_id)
            &&& value == reply_bytes(id)
        },
        advanced(state, report).1 matches CommandView::Lookup { key } ==> {
            &&& state.edited
            &&& state.step == Step::Releasing
            &&& key == event_key(state.message_id, state.chat_id)
        },
        advanced(state, report).1 is SendReply ==> !state.edited && state.text.len() > 0,
        advanced(state, report).1 matches CommandView::EditReply { text, .. } ==> state.edited
            && text.len() > 0,
{
}

/// What is recorded for a new message is found again for its edit: the
/// entry written after the reply `reply_id` was sent makes the edit of the
/// same message go to that reply, and the lookup is made under the very key
/// of the entry. With no entry the edit fails as missing.
pub proof fn lemma_recorded_reply_is_found(
    sending: DispatchView,
    looking_up: DispatchView,
    reply_id: i32,
)
    requires
        sending.step == Step::Sending,
        looking_up.step == Step::LookingUp,
        looking_up.message_id == sending.message_id,
        looking_up.chat_id == sending.chat_id,
    ensures
        advanced(sending, ReportView::Sent { id: reply_id }).1 matches CommandView::Store {
            key,
            value,
        } && {
            &&& key == event_key(looking_up.message_id, looking_up.chat_id)
            &&& advanced(looking_up, ReportView::Found(Some(value))).1 == (CommandView::EditReply {
                chat_id: looking_up.chat_id,
                message_id: reply_id,
                text: looking_up.text,
            })
        },
        advanced(looking_up, ReportView::Found(None)) == concluded(
            looking_up,
            Outcome::Failed(DispatchError::MissingEntry { message_id: looking_up.message_id }),
        ),
{
    crate::identity::lemma_reply_round_trip(reply_id);
}

/// A message that asks to be deleted is deleted after its reply or edit,
/// however that went: once the result is being sent or looked up, the
/// delivery does not end before the deletion was commanded, and the
/// deletion keeps the outcome of the reply or edit. Only the inbound
/// message is ever deleted, and only if it asks for that.
pub proof fn lemma_deleted_whatever_the_outcome(state: DispatchView, report: ReportView)
    requires
        answers(state.step, report),
    ensures
        advanced(state, report).1 matches CommandView::Delete { chat_id, message_id } ==> {
            &&& state.delete_after
            &&& chat_id == state.chat_id
            &&& message_id == state.message_id
            &&& advanced(state, report).0.step == Step::Deleting
        },
        state.delete_after && (state.step == Step::LookingUp || state.step == Step::Editing
            || state.step == Step::Sending || state.step == Step::Storing) ==> !(advanced(
            state,
            report,
        ).1 is Finish),
        state.delete_after && (state.step == Step::Editing || state.step == Step::Storing)
            ==> advanced(state, report).1 is Delete,
        state.step == Step::Deleting && report is Deleted ==> advanced(state, report).1
            == CommandView::Finish(state.outcome),
        state.step == Step::Deleting && report is DeleteFailed ==> advanced(state, report).1
            matches CommandView::Finish(Outcome::Failed(_)),
{
}

/// An edit that the transport refuses because the reply already shows the
/// text counts as done.
pub proof fn lemma_unchanged_edit_is_success(state: DispatchView)
    requires
        state.step == Step::Editing,
    ensures
        advanced(state, ReportView::Unchanged) == advanced(state, ReportView::Edited),
        advanced(state, ReportView::Unchanged) == concluded(state, Outcome::Edited),
{
}

/// Whether a delivery in `state` holds a permit of the concurrency gate.
pub open spec fn holds_permit(state: DispatchView) -> bool {
    state.step == Step::Executing || state.step == Step::Releasing
}

/// Whether the sandboxed run of a delivery in `state` is in progress.
pub open spec fn is_running(state: DispatchView) -> bool {
    state.step == Step::Executing
}

/// A delivery holds a permit from the grant of one until it has returned
/// it, and at no other time; its run is in progress only while it holds one.
pub proof fn lemma_permit_span(update: UpdateView, state: DispatchView, report: ReportView)
    ensures
        !holds_permit(started(update).0),
        holds_permit(advanced(state, report).0) <==> (state.step == Step::AwaitingPermit
            && report is PermitGranted) || state.step == Step::Executing,
        is_running(advanced(state, report).0) ==> holds_permit(advanced(state, report).0),
        advanced(state, report).1 is Finish ==> !holds_permit(advanced(state, report).0),
{
}

/// A gate that never has more than `capacity` permits out bounds the runs:
/// among any deliveries in progress at one time, at most `capacity` have
/// their sandboxed run in progress.
pub proof fn lemma_runs_bounded_by_permits(deliveries: Seq<DispatchView>, capacity: nat)
    requires
        deliveries.filter(|state: DispatchView| holds_permit(state)).len() <= capacity,
    ensures
        deliveries.filter(|state: DispatchView| is_running(state)).len() <= capacity,
{
    lemma_running_hold_permits(deliveries);
}

/// No more deliveries are running than hold a permit.
proof fn lemma_running_hold_permits(deliveries: Seq<DispatchView>)
    ensures
        deliveries.filter(|state: DispatchView| is_running(state)).len() <= deliveries.filter(
            |state: DispatchView| holds_permit(state),
        ).len(),
    decreases deliveries.len(),
{
    reveal(Seq::filter);
    if deliveries.len() > 0 {
        lemma_running_hold_permits(deliveries.drop_last());
    }
}

} // verus!
