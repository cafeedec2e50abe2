//! The batch run: every decision of a run, from its arguments to its end.
//!
//! A [`BatchRun`] performs no input or output. It is told what happened by
//! an [`Event`] and answers with a [`Reply`]: the records to print, the
//! diagnostics to pass on, and the [`Action`] to perform next. The caller
//! performs the action and comes back with the event that tells how it went.
//!
//! A run goes through these steps, in this order: the input is read, the
//! scratch file pool is created, and then for each batch in turn its lines
//! are written to the pool, the command is rendered and run, and its output is
//! paired with the lines of the batch. The first failure ends the run: no
//! batch is tried again, and none is skipped.

use crate::correlate::correlate;
use crate::correlate::paired;
use crate::correlate::Record;
use crate::correlate::RecordView;
use crate::error::Failure;
use crate::error::XcoprError;
use crate::lines::all_utf8;
use crate::lines::decode_lines;
use crate::lines::decoded;
use crate::lines::first_lines;
use crate::lines::framed;
use crate::lines::lemma_framed_length;
use crate::lines::not_utf8;
use crate::partition::batch_count;
use crate::partition::batch_of;
use crate::partition::batch_start;
use crate::partition::bounds_at;
use crate::pool::slot_payloads;
use crate::pool::slot_texts;
use crate::subprocess::exit_failure;
use crate::subprocess::exit_status;
use crate::subprocess::exit_summary;
use crate::subprocess::failure_detail;
use crate::subprocess::shell_call;
use crate::subprocess::shell_invocation;
use crate::subprocess::subprocess_failure;
use crate::subprocess::Invocation;
use crate::subprocess::InvocationView;
use crate::subprocess::SubprocessResult;
use crate::subprocess::SubprocessResultView;
use crate::subprocess::EXIT_FAILURE;
use crate::template::render_command;
use crate::template::rendered;
use vstd::pervasive::unreached;
use vstd::prelude::*;
use vstd::slice::slice_subrange;
use vstd::string::*;

verus! {

/// The arguments of the program.
#[derive(Debug, PartialEq, Eq)]
pub struct Args {
    /// The command template.
    pub coproc: String,
    /// The number of lines in a batch.
    pub batch_size: Option<usize>,
    /// The replacement token: what stands in the template for the paths of a
    /// batch's files.
    pub batch_replstr: Option<String>,
    /// The replacement token for lines passed as arguments. No run uses it.
    pub replstr: Option<String>,
}

/// What a run is waiting for.
#[derive(Debug, PartialEq, Eq, Clone, Copy)]
pub enum Phase {
    /// Nothing has happened yet.
    Ready,
    /// The input is being read.
    Reading,
    /// The scratch file pool is being created.
    Allocating,
    /// The lines of the current batch are being written to the pool.
    Populating,
    /// The command of the current batch is running.
    Running,
    /// The run has ended, in success or in failure.
    Finished,
}

/// What happened to the last action of a run.
#[derive(Debug, PartialEq, Eq)]
pub enum Event {
    /// The caller is ready to run.
    Start,
    /// The input was read to its end. Holds its bytes.
    Input(Vec<u8>),
    /// The input could not be read. Holds the detail of the failure.
    InputFailed(String),
    /// The pool was created, with the number of slots asked for.
    PoolReady,
    /// The pool could not be created. Holds the detail of the failure.
    PoolFailed(String),
    /// Every payload was written to its slot. Holds the paths of the slots
    /// written, in the order of the slots.
    Populated(Vec<String>),
    /// A slot could not be written. Holds the detail of the failure.
    PopulateFailed(String),
    /// The command could not be started. Holds the detail of the failure.
    SpawnFailed(String),
    /// The command was started and could not be waited for.
    WaitFailed,
    /// The command has ended.
    Exited(SubprocessResult),
}

/// What the caller of a run is to do next.
#[derive(Debug, PartialEq, Eq)]
pub enum Action {
    /// Read the input to its end.
    ReadInput,
    /// Create the pool, with this number of slots: a file of its own for
    /// each, empty, and kept until the run ends.
    CreatePool(usize),
    /// Replace what slot `i` holds by payload `i`, for each payload, so that
    /// a program started afterwards finds it there. The other slots are left
    /// alone.
    Populate(Vec<String>),
    /// Start this program, read what it writes to its end, and wait for the
    /// program to end.
    Spawn(Invocation),
    /// Remove the pool with its files, and stop: every batch is done.
    Done,
    /// Remove the pool with its files, and stop: the run has failed. Holds
    /// the failure, and the exit status that the program is to end with.
    Fail(XcoprError, i32),
}

/// The answer of a run to an event.
#[derive(Debug, PartialEq, Eq)]
pub struct Reply {
    /// The records to print, in this order, before anything else is done.
    pub records: Vec<Record>,
    /// What the command wrote to its standard error, to be passed on.
    pub diagnostics: Vec<u8>,
    /// What to do next.
    pub action: Action,
}

/// An [`Event`] as a mathematical value.
#[verifier::ext_equal]
pub enum EventView {
    Start,
    Input(Seq<u8>),
    InputFailed(Seq<char>),
    PoolReady,
    PoolFailed(Seq<char>),
    Populated(Seq<Seq<char>>),
    PopulateFailed(Seq<char>),
    SpawnFailed(Seq<char>),
    WaitFailed,
    Exited(SubprocessResultView),
}

/// An [`Action`] as a mathematical value.
#[verifier::ext_equal]
pub enum ActionView {
    ReadInput,
    CreatePool(nat),
    Populate(Seq<Seq<char>>),
    Spawn(InvocationView),
    Done,
    Fail(Failure, i32),
}

/// A [`Reply`] as a mathematical value.
#[verifier::ext_equal]
pub struct ReplyView {
    pub records: Seq<RecordView>,
    pub diagnostics: Seq<u8>,
    pub action: ActionView,
}

/// A [`BatchRun`] as a mathematical value.
#[verifier::ext_equal]
pub struct RunView {
    /// The command template.
    pub template: Seq<char>,
    /// The replacement token.
    pub token: Seq<char>,
    /// The number of lines in a batch.
    pub batch_size: nat,
    /// The lines of the input, once it is read.
    pub lines: Seq<Seq<char>>,
    /// The index of the current batch.
    pub index: nat,
    /// The command of the current batch, once it is rendered.
    pub command: Seq<char>,
    /// What the run is waiting for.
    pub phase: Phase,
}

impl View for Event {
    type V = EventView;

    open spec fn view(&self) -> EventView {
        match self {
            Event::Start => EventView::Start,
            Event::Input(bytes) => EventView::Input(bytes@),
            Event::InputFailed(detail) => EventView::InputFailed(detail@),
            Event::PoolReady => EventView::PoolReady,
            Event::PoolFailed(detail) => EventView::PoolFailed(detail@),
            Event::Populated(paths) => EventView::Populated(paths.deep_view()),
            Event::PopulateFailed(detail) => EventView::PopulateFailed(detail@),
            Event::SpawnFailed(detail) => EventView::SpawnFailed(detail@),
            Event::WaitFailed => EventView::WaitFailed,
            Event::Exited(result) => EventView::Exited(result@),
        }
    }
}

impl View for Action {
    type V = ActionView;

    open spec fn view(&self) -> ActionView {
        match self {
            Action::ReadInput => ActionView::ReadInput,
            Action::CreatePool(slots) => ActionView::CreatePool(*slots as nat),
            Action::Populate(payloads) => ActionView::Populate(payloads.deep_view()),
            Action::Spawn(invocation) => ActionView::Spawn(invocation@),
            Action::Done => ActionView::Done,
            Action::Fail(error, status) => ActionView::Fail(error@, *status),
        }
    }
}

impl View for Reply {
    type V = ReplyView;

    open spec fn view(&self) -> ReplyView {
        ReplyView {
            records: self.records.deep_view(),
            diagnostics: self.diagnostics@,
            action: self.action@,
        }
    }
}

/// What went wrong where a command could not be waited for.
pub open spec fn wait_summary() -> Seq<char> {
    "failed to wait for command"@
}

impl RunView {
    /// What holds of every run: its batches are not empty, and while a batch
    /// is written or run, there is such a batch.
    pub open spec fn wf(self) -> bool {
        &&& self.batch_size > 0
        &&& (self.phase is Populating || self.phase is Running) ==> self.index < batch_count(
            self.lines.len(),
            self.batch_size,
        )
    }

    /// The lines of the current batch.
    pub open spec fn batch(self) -> Seq<Seq<char>> {
        batch_of(self.lines, self.batch_size, self.index)
    }

    /// A reply with nothing to print and nothing to pass on.
    pub open spec fn quiet(action: ActionView) -> ReplyView {
        ReplyView { records: Seq::empty(), diagnostics: Seq::empty(), action }
    }

    /// The run ends in failure, and the program is to end with `status`.
    pub open spec fn fail_with(self, diagnostics: Seq<u8>, failure: Failure, status: i32) -> (
        RunView,
        ReplyView,
    ) {
        (
            RunView { phase: Phase::Finished, ..self },
            ReplyView {
                records: Seq::empty(),
                diagnostics,
                action: ActionView::Fail(failure, status),
            },
        )
    }

    /// The run ends in failure.
    pub open spec fn fail(self, diagnostics: Seq<u8>, failure: Failure) -> (RunView, ReplyView) {
        self.fail_with(diagnostics, failure, EXIT_FAILURE)
    }

    /// The run goes on with batch `index`, or ends where there is none.
    pub open spec fn begin(self, index: nat, records: Seq<RecordView>, diagnostics: Seq<u8>) -> (
        RunView,
        ReplyView,
    ) {
        let run = RunView { index, ..self };
        if index < batch_count(self.lines.len(), self.batch_size) {
            (
                RunView { phase: Phase::Populating, ..run },
                ReplyView {
                    records,
                    diagnostics,
                    action: ActionView::Populate(slot_texts(run.batch())),
                },
            )
        } else {
            (
                RunView { phase: Phase::Finished, ..run },
                ReplyView { records, diagnostics, action: ActionView::Done },
            )
        }
    }

    /// The run takes the ending of the current batch's command.
    pub open spec fn exited(self, result: SubprocessResultView) -> (RunView, ReplyView) {
        let output = first_lines(result.stdout, self.batch().len());
        if !all_utf8(output) {
            self.fail(result.stderr, Failure::InvalidUtf8(not_utf8()))
        } else if result.code != Some(0i32) {
            self.fail_with(
                result.stderr,
                Failure::SubprocessFailed(failure_detail(exit_summary(result.code), self.command)),
                exit_status(result.code),
            )
        } else {
            self.begin(
                self.index + 1,
                paired(
                    batch_start(self.batch_size, self.index),
                    self.batch().len(),
                    decoded(output),
                ),
                result.stderr,
            )
        }
    }

    /// Whether the run is waiting for `event`.
    pub open spec fn accepts(self, event: EventView) -> bool {
        match event {
            EventView::Start => self.phase is Ready,
            EventView::Input(_) => self.phase is Reading,
            EventView::InputFailed(_) => self.phase is Reading,
            EventView::PoolReady => self.phase is Allocating,
            EventView::PoolFailed(_) => self.phase is Allocating,
            EventView::Populated(paths) => self.phase is Populating && paths.len()
                == self.batch().len(),
            EventView::PopulateFailed(_) => self.phase is Populating,
            EventView::SpawnFailed(_) => self.phase is Running,
            EventView::WaitFailed => self.phase is Running,
            EventView::Exited(_) => self.phase is Running,
        }
    }

    /// The run after `event`, and its reply to it.
    pub open spec fn next(self, event: EventView) -> (RunView, ReplyView)
        recommends
            self.accepts(event),
    {
        match event {
            EventView::Start => (
                RunView { phase: Phase::Reading, ..self },
                Self::quiet(ActionView::ReadInput),
            ),
            EventView::Input(bytes) => if all_utf8(framed(bytes)) {
                (
                    RunView { lines: decoded(framed(bytes)), phase: Phase::Allocating, ..self },
                    Self::quiet(ActionView::CreatePool(self.batch_size)),
                )
            } else {
                self.fail(Seq::empty(), Failure::InvalidUtf8(not_utf8()))
            },
            EventView::InputFailed(detail) => self.fail(Seq::empty(), Failure::InvalidUtf8(detail)),
            EventView::PoolReady => self.begin(0, Seq::empty(), Seq::empty()),
            EventView::PoolFailed(detail) => self.fail(
                Seq::empty(),
                Failure::FailedToWrite(detail),
            ),
            EventView::Populated(paths) => {
                let command = rendered(self.template, self.token, paths);
                (
                    RunView { command, phase: Phase::Running, ..self },
                    Self::quiet(ActionView::Spawn(shell_call(command))),
                )
            },
            EventView::PopulateFailed(detail) => self.fail(
                Seq::empty(),
                Failure::FailedToWrite(detail),
            ),
            EventView::SpawnFailed(detail) => self.fail(
                Seq::empty(),
                Failure::SubprocessFailed(failure_detail(detail, self.command)),
            ),
            EventView::WaitFailed => self.fail(
                Seq::empty(),
                Failure::SubprocessFailed(failure_detail(wait_summary(), self.command)),
            ),
            EventView::Exited(result) => self.exited(result),
        }
    }
}

/// A run that has not started: its template, its token and its batch size.
pub open spec fn initial(template: Seq<char>, token: Seq<char>, batch_size: nat) -> RunView {
    RunView {
        template,
        token,
        batch_size,
        lines: Seq::empty(),
        index: 0,
        command: Seq::empty(),
        phase: Phase::Ready,
    }
}

/// One run of a command template over the lines of an input.
pub struct BatchRun {
    template: String,
    token: String,
    batch_size: usize,
    lines: Vec<String>,
    index: usize,
    command: String,
    phase: Phase,
}

impl View for BatchRun {
    type V = RunView;

    closed spec fn view(&self) -> RunView {
        RunView {
            template: self.template@,
            token: self.token@,
            batch_size: self.batch_size as nat,
            lines: self.lines.deep_view(),
            index: self.index as nat,
            command: self.command@,
            phase: self.phase,
        }
    }
}

impl BatchRun {
    #[verifier::type_invariant]
    spec fn well_formed(self) -> bool {
        self@.wf()
    }

    /// What the run is waiting for.
    pub fn phase(&self) -> (phase: Phase)
        ensures
            phase == self@.phase,
    {
        self.phase
    }

    /// The index of the current batch: the number of batches that are done.
    pub fn batch_index(&self) -> (index: usize)
        ensures
            index == self@.index,
    {
        self.index
    }

    fn quiet(action: Action) -> (reply: Reply)
        ensures
            reply@ == RunView::quiet(action@),
    {
        let reply = Reply { records: Vec::new(), diagnostics: Vec::new(), action };
        assert(reply.records.deep_view() == Seq::<RecordView>::empty());
        reply
    }

    fn fail_with(&mut self, diagnostics: Vec<u8>, error: XcoprError, status: i32) -> (reply: Reply)
        ensures
            (final(self)@, reply@) == old(self)@.fail_with(diagnostics@, error@, status),
    {
        proof {
            use_type_invariant(&*self);
        }
        self.phase = Phase::Finished;
        let reply = Reply { records: Vec::new(), diagnostics, action: Action::Fail(error, status) };
        assert(reply.records.deep_view() == Seq::<RecordView>::empty());
        reply
    }

    fn fail(&mut self, diagnostics: Vec<u8>, error: XcoprError) -> (reply: Reply)
        ensures
            (final(self)@, reply@) == old(self)@.fail(diagnostics@, error@),
    {
        self.fail_with(diagnostics, error, EXIT_FAILURE)
    }

    fn begin(&mut self, index: usize, records: Vec<Record>, diagnostics: Vec<u8>) -> (reply: Reply)
        requires
            !(old(self)@.phase is Populating),
            !(old(self)@.phase is Running),
        ensures
            (final(self)@, reply@) == old(self)@.begin(
                index as nat,
                records.deep_view(),
                diagnostics@,
            ),
    {
        proof {
            use_type_invariant(&*self);
        }
        self.index = index;
        match bounds_at(self.lines.len(), self.batch_size, index) {
            Some((start, end)) => {
                let batch = slice_subrange(self.lines.as_slice(), start, end);
                let payloads = slot_payloads(batch);
                assert(batch.deep_view() == self@.batch());
                self.phase = Phase::Populating;
                Reply { records, diagnostics, action: Action::Populate(payloads) }
            },
            None => {
                self.phase = Phase::Finished;
                Reply { records, diagnostics, action: Action::Done }
            },
        }
    }

    fn exited(&mut self, result: SubprocessResult) -> (reply: Reply)
        requires
            old(self)@.phase is Running,
        ensures
            (final(self)@, reply@) == old(self)@.exited(result@),
    {
        proof {
            use_type_invariant(&*self);
        }
        let (start, end) = match bounds_at(self.lines.len(), self.batch_size, self.index) {
            Some(bounds) => bounds,
            None => unreached(),
        };
        let batch_len = end - start;
        assert(batch_len == self@.batch().len());
        let SubprocessResult { code, stdout, stderr } = result;
        match decode_lines(stdout.as_slice(), batch_len) {
            Err(error) => self.fail(stderr, error),
            Ok(output) => match exit_failure(code, self.command.as_str()) {
                Some((error, status)) => self.fail_with(stderr, error, status),
                None => {
                    let records = correlate(start, batch_len, output);
                    self.phase = Phase::Allocating;
                    self.begin(self.index + 1, records, stderr)
                },
            },
        }
    }

    /// Tells the run what happened, and asks it what to do next.
    ///
    /// An event that the run is not waiting for is refused, and changes
    /// nothing. A run that has ended waits for no event.
    pub fn step(&mut self, event: Event) -> (reply: Option<Reply>)
        ensures
            reply is Some <==> old(self)@.accepts(event@),
            reply matches Some(answer) ==> (final(self)@, answer@) == old(self)@.next(event@),
            reply is None ==> final(self)@ == old(self)@,
            final(self)@.wf(),
    {
        proof {
            use_type_invariant(&*self);
        }
        match event {
            Event::Start => match self.phase {
                Phase::Ready => {
                    self.phase = Phase::Reading;
                    Some(Self::quiet(Action::ReadInput))
                },
                _ => None,
            },
            Event::Input(bytes) => match self.phase {
                Phase::Reading => {
                    proof {
                        assert(first_lines(bytes@, bytes@.len()) == framed(bytes@)) by {
                            lemma_framed_length(bytes@);
                        }
                    }
                    match decode_lines(bytes.as_slice(), bytes.len()) {
                        Ok(lines) => {
                            self.lines = lines;
                            self.phase = Phase::Allocating;
                            Some(Self::quiet(Action::CreatePool(self.batch_size)))
                        },
                        Err(error) => Some(self.fail(Vec::new(), error)),
                    }
                },
                _ => None,
            },
            Event::InputFailed(detail) => match self.phase {
                Phase::Reading => Some(self.fail(Vec::new(), XcoprError::InvalidUtf8(detail))),
                _ => None,
            },
            Event::PoolReady => match self.phase {
                Phase::Allocating => Some(self.begin(0, Vec::new(), Vec::new())),
                _ => None,
            },
            Event::PoolFailed(detail) => match self.phase {
                Phase::Allocating => Some(self.fail(Vec::new(), XcoprError::FailedToWrite(detail))),
                _ => None,
            },
            Event::Populated(paths) => match self.phase {
                Phase::Populating => {
                    let expected = match bounds_at(self.lines.len(), self.batch_size, self.index) {
                        Some((start, end)) => end - start,
                        None => unreached(),
                    };
                    if paths.len() == expected {
                        let command = render_command(
                            self.template.as_str(),
                            self.token.as_str(),
                            &paths,
                        );
                        self.command = command.clone();
                        self.phase = Phase::Running;
                        Some(Self::quiet(Action::Spawn(shell_invocation(command))))
                    } else {
                        None
                    }
                },
                _ => None,
            },
            Event::PopulateFailed(detail) => match self.phase {
                Phase::Populating => Some(self.fail(Vec::new(), XcoprError::FailedToWrite(detail))),
                _ => None,
            },
            Event::SpawnFailed(detail) => match self.phase {
                Phase::Running => {
                    let error = subprocess_failure(detail, self.command.as_str());
                    Some(self.fail(Vec::new(), error))
                },
                _ => None,
            },
            Event::WaitFailed => match self.phase {
                Phase::Running => {
                    let error = subprocess_failure(
                        String::from_str("failed to wait for command"),
                        self.command.as_str(),
                    );
                    Some(self.fail(Vec::new(), error))
                },
                _ => None,
            },
            Event::Exited(result) => match self.phase {
                Phase::Running => Some(self.exited(result)),
                _ => None,
            },
        }
    }
}

/// Prepares a run of `cmd` over batches of `batch_size` lines, with
/// `batch_replstr` as the replacement token.
///
/// A batch size of zero is refused, before anything is read or written.
pub fn run_batch_mode(batch_size: usize, batch_replstr: &str, cmd: &str) -> (run: Result<
    BatchRun,
    XcoprError,
>)
    ensures
        run is Err <==> batch_size == 0,
        run matches Err(error) ==> error@ == Failure::InvalidBatchSize,
        run matches Ok(prepared) ==> prepared@ == initial(cmd@, batch_replstr@, batch_size as nat),
{
    if batch_size == 0 {
        Err(XcoprError::InvalidBatchSize)
    } else {
        let prepared = BatchRun {
            template: String::from_str(cmd),
            token: String::from_str(batch_replstr),
            batch_size,
            lines: Vec::new(),
            index: 0,
            command: String::new(),
            phase: Phase::Ready,
        };
        assert(prepared@.lines == Seq::<Seq<char>>::empty());
        Ok(prepared)
    }
}

/// An [`Args`] as a mathematical value.
#[verifier::ext_equal]
pub struct ArgsView {
    pub coproc: Seq<char>,
    pub batch_size: Option<usize>,
    pub batch_replstr: Option<Seq<char>>,
    pub replstr: Option<Seq<char>>,
}

impl View for Args {
    type V = ArgsView;

    open spec fn view(&self) -> ArgsView {
        ArgsView {
            coproc: self.coproc@,
            batch_size: self.batch_size,
            batch_replstr: match self.batch_replstr {
                Some(token) => Some(token@),
                None => None,
            },
            replstr: match self.replstr {
                Some(token) => Some(token@),
                None => None,
            },
        }
    }
}

/// What the arguments ask for: a failure, nothing, or a run.
pub open spec fn configured(args: ArgsView) -> Result<Option<RunView>, Failure> {
    match (args.batch_size, args.batch_replstr) {
        (Some(size), _) if size == 0 => Err(Failure::InvalidBatchSize),
        (Some(_), None) => Err(Failure::InvalidBatchMode),
        (None, None) => Ok(None),
        (Some(size), Some(token)) => Ok(Some(initial(args.coproc, token, size as nat))),
        (None, Some(token)) => Ok(Some(initial(args.coproc, token, 1))),
    }
}

/// Decides from the arguments what is to be done.
///
/// With a replacement token there is a run, over batches of the size given,
/// or of one line where none is given. With neither a token nor a batch size
/// there is nothing to do. A batch size of zero is refused, and so is a batch
/// size without a token. Nothing is read or written before that.
pub fn run(args: Args) -> (plan: Result<Option<BatchRun>, XcoprError>)
    ensures
        match configured(args@) {
            Err(failure) => plan matches Err(error) && error@ == failure,
            Ok(None) => plan matches Ok(None),
            Ok(Some(prepared)) => plan matches Ok(Some(found)) && found@ == prepared,
        },
{
    let Args { coproc, batch_size, batch_replstr, replstr: _ } = args;
    match batch_size {
        Some(size) => {
            if size == 0 {
                Err(XcoprError::InvalidBatchSize)
            } else {
                match batch_replstr {
                    Some(token) => match run_batch_mode(size, token.as_str(), coproc.as_str()) {
                        Ok(prepared) => Ok(Some(prepared)),
                        Err(error) => Err(error),
                    },
                    None => Err(XcoprError::InvalidBatchMode),
                }
            }
        },
        None => match batch_replstr {
            Some(token) => match run_batch_mode(1, token.as_str(), coproc.as_str()) {
                Ok(prepared) => Ok(Some(prepared)),
                Err(error) => Err(error),
            },
            None => Ok(None),
        },
    }
}

} // verus!
