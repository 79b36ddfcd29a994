//! The execution protocol of one sandboxed run, as a state machine: start the
//! sandbox, write the whole input and close it, read the output into a
//! bounded capture, wait for the exit, and judge the run by its exit status.
//!
//! The machine decides; its driver performs each action it is handed and
//! reports what happened.

use crate::sandbox::{sandbox_command, sandboxed, Invocation, InvocationView, SandboxConfig};
use vstd::prelude::*;

verus! {

/// The most bytes of output that a run may return. Output beyond this
/// ceiling is dropped.
pub const CAPTURE_CAPACITY: usize = 1024;

/// Why a sandboxed run gave no result.
#[derive(Clone, Copy, Debug, PartialEq, Eq)]
pub enum ExecutionError {
    /// The sandbox could not be started.
    Spawn,
    /// The input could not be written in full.
    WriteInput,
    /// The output could not be read.
    ReadOutput,
    /// The exit of the sandbox could not be awaited.
    Wait,
    /// The sandbox ended with anything but exit code zero; `code` is absent
    /// when a signal ended it.
    AbnormalExit { code: Option<i32> },
    /// The driver reported something that the pending action cannot give.
    OutOfOrder,
}

/// How far a run has come.
#[derive(Clone, Copy, Debug, PartialEq, Eq)]
pub enum Stage {
    Starting,
    Feeding,
    Draining,
    Reaping,
    Finished,
}

/// What the driver reports.
#[derive(Debug, PartialEq, Eq)]
pub enum ChildEvent {
    /// The sandbox runs.
    Started,
    /// The sandbox could not be started.
    StartFailed,
    /// The whole input was written and the input stream closed.
    InputWritten,
    /// Writing the input failed.
    InputFailed,
    /// One read of the output gave these bytes; none at its end.
    Output(Vec<u8>),
    /// Reading the output failed.
    OutputFailed,
    /// The sandbox ended, having written `stderr` to its error stream.
    Exited { code: Option<i32>, stderr: Vec<u8> },
    /// Waiting for the sandbox failed.
    WaitFailed,
}

/// What the driver is to do next.
#[derive(Debug, PartialEq, Eq)]
pub enum ChildAction {
    /// Start this program with piped standard streams.
    Start(Invocation),
    /// Write all of this text to the input stream, then close it.
    Feed(String),
    /// Read once from the output stream, at most `limit` bytes.
    Read { limit: usize },
    /// Wait for the exit, collecting the error stream.
    Wait,
    /// The run is over. `diagnostics` is for the log only.
    Finish { result: Result<String, ExecutionError>, diagnostics: Option<String> },
}

/// One sandboxed run in progress.
#[derive(Debug, PartialEq, Eq)]
pub struct Pipeline {
    pub stage: Stage,
    pub input: String,
    pub captured: Vec<u8>,
}

/// `ChildEvent` with its bytes as sequences.
pub enum ChildEventView {
    Started,
    StartFailed,
    InputWritten,
    InputFailed,
    Output(Seq<u8>),
    OutputFailed,
    Exited { code: Option<i32>, stderr: Seq<u8> },
    WaitFailed,
}

/// `ChildAction` with its texts as sequences of characters.
pub enum ChildActionView {
    Start(InvocationView),
    Feed(Seq<char>),
    Read { limit: usize },
    Wait,
    Finish { result: Result<Seq<char>, ExecutionError>, diagnostics: Option<Seq<char>> },
}

/// `Pipeline` with its text and bytes as sequences.
pub struct PipelineView {
    pub stage: Stage,
    pub input: Seq<char>,
    pub captured: Seq<u8>,
}

impl View for ChildEvent {
    type V = ChildEventView;

    open spec fn view(&self) -> ChildEventView {
        match *self {
            ChildEvent::Started => ChildEventView::Started,
            ChildEvent::StartFailed => ChildEventView::StartFailed,
            ChildEvent::InputWritten => ChildEventView::InputWritten,
            ChildEvent::InputFailed => ChildEventView::InputFailed,
            ChildEvent::Output(bytes) => ChildEventView::Output(bytes@),
            ChildEvent::OutputFailed => ChildEventView::OutputFailed,
            ChildEvent::Exited { code, stderr } => ChildEventView::Exited {
                code,
                stderr: stderr@,
            },
            ChildEvent::WaitFailed => ChildEventView::WaitFailed,
        }
    }
}

impl View for ChildAction {
    type V = ChildActionView;

    open spec fn view(&self) -> ChildActionView {
        match *self {
            ChildAction::Start(invocation) => ChildActionView::Start(invocation@),
            ChildAction::Feed(input) => ChildActionView::Feed(input@),
            ChildAction::Read { limit } => ChildActionView::Read { limit },
            ChildAction::Wait => ChildActionView::Wait,
            ChildAction::Finish { result, diagnostics } => ChildActionView::Finish {
                result: match result {
                    Ok(text) => Ok(text@),
                    Err(e) => Err(e),
                },
                diagnostics: match diagnostics {
                    Some(text) => Some(text@),
                    None => None,
                },
            },
        }
    }
}

impl View for Pipeline {
    type V = PipelineView;

    open spec fn view(&self) -> PipelineView {
        PipelineView { stage: self.stage, input: self.input@, captured: self.captured@ }
    }
}

/// What `String::from_utf8_lossy` of the standard library makes of `bytes`.
pub uninterp spec fn utf8_lossy(bytes: Seq<u8>) -> Seq<char>;

/// `String::from_utf8_lossy` of the standard library. The text it returns
/// depends on the bytes alone; where the bytes are valid UTF-8 it is the
/// text that they encode. No sequence of bytes makes it fail.
#[verifier::external_body]
fn decode_lossy(bytes: &[u8]) -> (text: String)
    ensures
        text@ == utf8_lossy(bytes@),
        vstd::utf8::valid_utf8(bytes@) ==> vstd::utf8::encode_utf8(text@) == bytes@,
{
    String::from_utf8_lossy(bytes).into_owned()
}

/// The text of `bytes`, invalid sequences replaced: for bytes that are valid
/// UTF-8, the text that they encode.
fn decode(bytes: &Vec<u8>) -> (text: String)
    ensures
        text@ == utf8_lossy(bytes@),
        vstd::utf8::valid_utf8(bytes@) ==> text@ == vstd::utf8::decode_utf8(bytes@),
{
    let text = decode_lossy(bytes.as_slice());
    proof {
        if vstd::utf8::valid_utf8(bytes@) {
            vstd::utf8::encode_utf8_decode_utf8(text@);
        }
    }
    text
}

/// How many more bytes a capture that holds `held` bytes takes.
pub open spec fn room(held: nat) -> nat {
    if held < CAPTURE_CAPACITY {
        (CAPTURE_CAPACITY - held) as nat
    } else {
        0
    }
}

/// The capture after one read gave `chunk`: as much of the chunk as there is
/// room for is kept, the rest is dropped.
pub open spec fn absorbed(captured: Seq<u8>, chunk: Seq<u8>) -> Seq<u8> {
    if chunk.len() <= room(captured.len()) {
        captured + chunk
    } else {
        captured + chunk.take(room(captured.len()) as int)
    }
}

/// The result of a run that ended with `code`, having printed `output`.
pub open spec fn judged(code: Option<i32>, output: Seq<char>) -> Result<Seq<char>, ExecutionError> {
    if code == Some(0i32) {
        Ok(output)
    } else {
        Err(ExecutionError::AbnormalExit { code })
    }
}

/// What is worth logging of the error stream `stderr`.
pub open spec fn noted(stderr: Seq<u8>) -> Option<Seq<char>> {
    if stderr.len() > 0 {
        Some(utf8_lossy(stderr))
    } else {
        None
    }
}

/// The end of a run that gave no result.
pub open spec fn failed(state: PipelineView, error: ExecutionError) -> (
    PipelineView,
    ChildActionView,
) {
    (
        PipelineView { stage: Stage::Finished, ..state },
        ChildActionView::Finish { result: Err(error), diagnostics: None },
    )
}

/// The state after `event`, and what the driver is to do next.
pub open spec fn stepped(state: PipelineView, event: ChildEventView) -> (
    PipelineView,
    ChildActionView,
) {
    match (state.stage, event) {
        (Stage::Starting, ChildEventView::Started) => (
            PipelineView { stage: Stage::Feeding, ..state },
            ChildActionView::Feed(state.input),
        ),
        (Stage::Starting, ChildEventView::StartFailed) => failed(state, ExecutionError::Spawn),
        (Stage::Feeding, ChildEventView::InputWritten) => (
            PipelineView { stage: Stage::Draining, ..state },
            ChildActionView::Read { limit: room(state.captured.len()) as usize },
        ),
        (Stage::Feeding, ChildEventView::InputFailed) => failed(
            state,
            ExecutionError::WriteInput,
        ),
        (Stage::Draining, ChildEventView::Output(chunk)) => {
            let captured = absorbed(state.captured, chunk);
            if chunk.len() == 0 || room(captured.len()) == 0 {
                (PipelineView { stage: Stage::Reaping, captured, ..state }, ChildActionView::Wait)
            } else {
                (
                    PipelineView { stage: Stage::Draining, captured, ..state },
                    ChildActionView::Read { limit: room(captured.len()) as usize },
                )
            }
        },
        (Stage::Draining, ChildEventView::OutputFailed) => failed(
            state,
            ExecutionError::ReadOutput,
        ),
        (Stage::Reaping, ChildEventView::Exited { code, stderr }) => (
            PipelineView { stage: Stage::Finished, ..state },
            ChildActionView::Finish {
                result: judged(code, utf8_lossy(state.captured)),
                diagnostics: noted(stderr),
            },
        ),
        (Stage::Reaping, ChildEventView::WaitFailed) => failed(state, ExecutionError::Wait),
        _ => failed(state, ExecutionError::OutOfOrder),
    }
}

/// The state in which a run begins.
pub open spec fn begun(input: Seq<char>) -> PipelineView {
    PipelineView { stage: Stage::Starting, input, captured: Seq::empty() }
}

/// A result with its text as a sequence of characters.
pub open spec fn result_view(result: Result<String, ExecutionError>) -> Result<
    Seq<char>,
    ExecutionError,
> {
    match result {
        Ok(text) => Ok(text@),
        Err(e) => Err(e),
    }
}

/// The result of a run that ended with `code`, having printed `output`: the
/// output if the exit code is zero, and the abnormal exit otherwise, whatever
/// was printed.
pub fn judge(code: Option<i32>, output: String) -> (result: Result<String, ExecutionError>)
    ensures
        result_view(result) == judged(code, output@),
{
    match code {
        Some(0) => Ok(output),
        _ => Err(ExecutionError::AbnormalExit { code }),
    }
}

/// Adds to `captured` as much of `chunk` as the capture has room for.
fn absorb(captured: &mut Vec<u8>, chunk: &Vec<u8>)
    ensures
        final(captured)@ == absorbed(old(captured)@, chunk@),
{
    let held = captured.len();
    let space = if held < CAPTURE_CAPACITY {
        CAPTURE_CAPACITY - held
    } else {
        0
    };
    let take = if chunk.len() <= space {
        chunk.len()
    } else {
        space
    };
    let mut i: usize = 0;
    while i < take
        invariant
            i <= take <= chunk.len(),
            captured@ == old(captured)@ + chunk@.take(i as int),
        decreases take - i,
    {
        captured.push(chunk[i]);
        i = i + 1;
        assert(captured@ =~= old(captured)@ + chunk@.take(i as int));
    }
    assert(chunk@.take(chunk.len() as int) =~= chunk@);
}

/// How many more bytes `captured` takes.
fn room_in(captured: &Vec<u8>) -> (space: usize)
    ensures
        space == room(captured@.len()),
{
    if captured.len() < CAPTURE_CAPACITY {
        CAPTURE_CAPACITY - captured.len()
    } else {
        0
    }
}

impl Pipeline {
    /// Begins the run that applies `expressions`, in order, to `input`. The
    /// first thing to do is to start the sandbox.
    pub fn begin(expressions: &Vec<String>, input: String, config: &SandboxConfig) -> (run: (
        Pipeline,
        ChildAction,
    ))
        ensures
            run.0@ == begun(input@),
            run.1@ == ChildActionView::Start(sandboxed(config@, expressions.deep_view())),
    {
        let invocation = sandbox_command(expressions, config);
        (
            Pipeline { stage: Stage::Starting, input, captured: Vec::new() },
            ChildAction::Start(invocation),
        )
    }

    /// The end of a run that gave no result.
    fn fail(self, error: ExecutionError) -> (run: (Pipeline, ChildAction))
        ensures
            (run.0@, run.1@) == failed(self@, error),
    {
        (
            Pipeline { stage: Stage::Finished, input: self.input, captured: self.captured },
            ChildAction::Finish { result: Err(error), diagnostics: None },
        )
    }

    /// Takes what the driver reports and says what it is to do next.
    ///
    /// The input is written only to a sandbox that runs; the output is read,
    /// one read at a time, until it ends or the capture is full; the exit is
    /// awaited after that; and the run is judged by its exit code alone. A
    /// failure of any step ends the run at once.
    ///
    /// Output that is valid UTF-8 is returned as the text that it encodes;
    /// so a run that printed nothing returns the empty text.
    pub fn step(self, event: ChildEvent) -> (run: (Pipeline, ChildAction))
        ensures
            (run.0@, run.1@) == stepped(self@, event@),
            vstd::utf8::valid_utf8(self.captured@) ==> (run.1@ matches ChildActionView::Finish {
                result: Ok(text),
                ..
            } ==> text == vstd::utf8::decode_utf8(self.captured@)),
    {
        match (self.stage, event) {
            (Stage::Starting, ChildEvent::Started) => {
                let feed = self.input.clone();
                (
                    Pipeline { stage: Stage::Feeding, input: self.input, captured: self.captured },
                    ChildAction::Feed(feed),
                )
            },
            (Stage::Starting, ChildEvent::StartFailed) => self.fail(ExecutionError::Spawn),
            (Stage::Feeding, ChildEvent::InputWritten) => {
                let limit = room_in(&self.captured);
                (
                    Pipeline { stage: Stage::Draining, input: self.input, captured: self.captured },
                    ChildAction::Read { limit },
                )
            },
            (Stage::Feeding, ChildEvent::InputFailed) => self.fail(ExecutionError::WriteInput),
            (Stage::Draining, ChildEvent::Output(chunk)) => {
                let mut captured = self.captured;
                absorb(&mut captured, &chunk);
                let limit = room_in(&captured);
                if chunk.len() == 0 || limit == 0 {
                    (
                        Pipeline { stage: Stage::Reaping, input: self.input, captured },
                        ChildAction::Wait,
                    )
                } else {
                    (
                        Pipeline { stage: Stage::Draining, input: self.input, captured },
                        ChildAction::Read { limit },
                    )
                }
            },
            (Stage::Draining, ChildEvent::OutputFailed) => self.fail(ExecutionError::ReadOutput),
            (Stage::Reaping, ChildEvent::Exited { code, stderr }) => {
                let diagnostics = if stderr.len() > 0 {
                    Some(decode(&stderr))
                } else {
                    None
                };
                let result = judge(code, decode(&self.captured));
                (
                    Pipeline { stage: Stage::Finished, input: self.input, captured: self.captured },
                    ChildAction::Finish { result, diagnostics },
                )
            },
            (Stage::Reaping, ChildEvent::WaitFailed) => self.fail(ExecutionError::Wait),
            _ => self.fail(ExecutionError::OutOfOrder),
        }
    }
}

/// What holds of every state that a run goes through: the capture is within
/// its capacity, is empty until output is read, and has room left while
/// output is being read.
pub open spec fn well_formed(state: PipelineView) -> bool {
    &&& state.captured.len() <= CAPTURE_CAPACITY
    &&& state.stage == Stage::Starting || state.stage == Stage::Feeding
        ==> state.captured.len() == 0
    &&& state.stage == Stage::Draining ==> state.captured.len() < CAPTURE_CAPACITY
}

/// An upper bound on the number of steps that a run in `state` still takes.
pub open spec fn steps_left(state: PipelineView) -> nat {
    match state.stage {
        Stage::Starting => (CAPTURE_CAPACITY + 4) as nat,
        Stage::Feeding => (CAPTURE_CAPACITY + 3) as nat,
        Stage::Draining => 2 + room(state.captured.len()),
        Stage::Reaping => 1,
        Stage::Finished => 0,
    }
}

/// A run begins well-formed, and every step keeps it so.
pub proof fn lemma_capture_stays_bounded(state: PipelineView, event: ChildEventView)
    requires
        well_formed(state),
    ensures
        well_formed(begun(state.input)),
        well_formed(stepped(state, event).0),
        stepped(state, event).0.input == state.input,
{
    if let ChildEventView::Output(chunk) = event {
        lemma_capture_is_prefix(state.captured, chunk);
    }
}

/// The capture is the first `CAPTURE_CAPACITY` bytes of all that was read.
pub proof fn lemma_capture_is_prefix(captured: Seq<u8>, chunk: Seq<u8>)
    requires
        captured.len() <= CAPTURE_CAPACITY,
    ensures
        absorbed(captured, chunk) == if captured.len() + chunk.len() <= CAPTURE_CAPACITY {
            captured + chunk
        } else {
            (captured + chunk).take(CAPTURE_CAPACITY as int)
        },
{
    if captured.len() + chunk.len() > CAPTURE_CAPACITY {
        assert(captured + chunk.take(room(captured.len()) as int) =~= (captured + chunk).take(
            CAPTURE_CAPACITY as int,
        ));
    }
}

/// A run ends: every step of a run that is not over brings it closer to its
/// end, and a read is only asked for with room for at least one byte.
pub proof fn lemma_step_makes_progress(state: PipelineView, event: ChildEventView)
    requires
        well_formed(state),
        state.stage != Stage::Finished,
    ensures
        steps_left(stepped(state, event).0) < steps_left(state),
        stepped(state, event).1 matches ChildActionView::Read { limit } ==> 1 <= limit
            <= CAPTURE_CAPACITY,
        stepped(state, event).1 is Finish <==> stepped(state, event).0.stage == Stage::Finished,
{
    if let ChildEventView::Output(chunk) = event {
        lemma_capture_is_prefix(state.captured, chunk);
    }
}

/// A run succeeds only with exit code zero, and then returns what its
/// output decodes to; no other exit returns any output.
pub proof fn lemma_success_needs_clean_exit(code: Option<i32>, output: Seq<char>)
    ensures
        judged(code, output) is Ok <==> code == Some(0i32),
        judged(code, output) matches Ok(text) ==> text == output,
        judged(code, output) matches Err(e) ==> e == (ExecutionError::AbnormalExit { code }),
{
}

/// The capture after the reads `reads`, in order, into an empty capture.
pub open spec fn captured_after(reads: Seq<Seq<u8>>) -> Seq<u8>
    decreases reads.len(),
{
    if reads.len() == 0 {
        Seq::empty()
    } else {
        absorbed(captured_after(reads.drop_last()), reads.last())
    }
}

/// All the bytes of `reads`, in order.
pub open spec fn all_bytes(reads: Seq<Seq<u8>>) -> Seq<u8>
    decreases reads.len(),
{
    if reads.len() == 0 {
        Seq::empty()
    } else {
        all_bytes(reads.drop_last()) + reads.last()
    }
}

/// However the output arrives, what is captured is all of it if it fits the
/// capacity, and its first `CAPTURE_CAPACITY` bytes otherwise.
pub proof fn lemma_capture_of_all_reads(reads: Seq<Seq<u8>>)
    ensures
        captured_after(reads).len() <= CAPTURE_CAPACITY,
        captured_after(reads) == if all_bytes(reads).len() <= CAPTURE_CAPACITY {
            all_bytes(reads)
        } else {
            all_bytes(reads).take(CAPTURE_CAPACITY as int)
        },
    decreases reads.len(),
{
    if reads.len() > 0 {
        let before = reads.drop_last();
        lemma_capture_of_all_reads(before);
        lemma_capture_is_prefix(captured_after(before), reads.last());
        let all = all_bytes(before);
        if all.len() > CAPTURE_CAPACITY {
            assert(all.take(CAPTURE_CAPACITY as int) =~= (all + reads.last()).take(
                CAPTURE_CAPACITY as int,
            ));
        }
    }
}

} // verus!
