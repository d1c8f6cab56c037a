//! The bookkeeping of a pipeline: the contexts of its stages, which stages
//! have returned, how the streams between them end, and how the pipeline as a
//! whole ends.
//!
//! The stages themselves run elsewhere, each as a unit of its own, on the
//! context that the pipeline holds for it. Whoever runs them reports here
//! when a stage's handler has returned.

use vstd::prelude::*;
use crate::context::{
    arguments_of, files_of, value_of, Argument, ArgumentView, ContextView, ExecutionContext,
    FileEntry, FileView, SenderView, ValueReceiver, ValueSender,
};
use crate::errors::{CrushError, CrushResult, ErrorView};
use crate::printer::{DiagnosticView, Printer};
use crate::stream::{failure_of, ReceivedView, Stream, StreamView};
use crate::value::{Value, ValueView};

verus! {

/// Where a pipeline is in its life.
#[derive(Clone, Copy, Debug, PartialEq, Eq, Structural)]
pub enum PipelineState {
    Built,
    Running,
    Completed,
    Failed,
}

/// Where a stage is in its life.
#[derive(Clone, Copy, Debug, PartialEq, Eq, Structural)]
pub enum StageState {
    Pending,
    Running,
    Succeeded,
    Failed,
}

/// What one stage is called with.
#[derive(Debug, PartialEq, Eq)]
pub struct Call {
    /// The arguments, in the order of the call site.
    pub arguments: Vec<Argument>,
    /// The receiver, for a call in method style.
    pub this: Option<Value>,
    /// The files that the host found for the call.
    pub files: Vec<FileEntry>,
}

/// The mathematical content of a `Call`.
pub struct CallView {
    pub arguments: Seq<ArgumentView>,
    pub this: Option<ValueView>,
    pub files: Seq<FileView>,
}

impl View for Call {
    type V = CallView;

    open spec fn view(&self) -> CallView {
        CallView {
            arguments: arguments_of(self.arguments@),
            this: value_of(self.this),
            files: files_of(self.files@),
        }
    }
}

/// The views of a sequence of calls, in order.
pub open spec fn calls_of(calls: Seq<Call>) -> Seq<CallView> {
    Seq::new(calls.len(), |i: int| calls[i]@)
}

/// The mathematical content of a `Pipeline`.
pub struct PipelineView {
    pub state: PipelineState,
    pub stages: Seq<StageState>,
    /// The context of each stage. The stream of the output of stage `i` is
    /// the stream that stage `i + 1` reads.
    pub contexts: Seq<ContextView>,
    /// The first error that a stage returned.
    pub failure: Option<ErrorView>,
}

/// Whether every stage has succeeded.
pub open spec fn all_succeeded(stages: Seq<StageState>) -> bool {
    forall|i: int| 0 <= i < stages.len() ==> #[trigger] stages[i] == StageState::Succeeded
}

/// The context that the stage at position `i` starts with: its input names
/// the stream of the stage before it, if there is one, and its output is
/// unused.
pub open spec fn first_context(call: CallView, i: int, capacity: nat) -> ContextView {
    ContextView {
        arguments: call.arguments,
        this: call.this,
        input: if i == 0 {
            None
        } else {
            Some(ValueView::Stream((i - 1) as usize))
        },
        output: SenderView { value: None, stream: StreamView::empty(capacity) },
        files: call.files,
        printer: Seq::empty(),
    }
}

/// A context with `stream` in the place of its output's stream.
pub open spec fn with_stream(c: ContextView, stream: StreamView) -> ContextView {
    ContextView { output: SenderView { stream, ..c.output }, ..c }
}

/// The contexts after the stage at `stage` has returned: the stream that it
/// wrote to ends, cleanly or with the stage's error, and the consumer's end of
/// the stream that it read from is closed. Nothing else changes.
pub open spec fn contexts_after(contexts: Seq<ContextView>, stage: int, error: Option<ErrorView>)
    -> Seq<ContextView> {
    Seq::new(
        contexts.len(),
        |i: int|
            if i == stage {
                with_stream(
                    contexts[i],
                    match error {
                        Some(e) => contexts[i].output.stream.after_fail(e),
                        None => contexts[i].output.stream.after_close(),
                    },
                )
            } else if i == stage - 1 {
                with_stream(contexts[i], contexts[i].output.stream.after_hang_up())
            } else {
                contexts[i]
            },
    )
}

impl PipelineView {
    /// A pipeline as it is built from `calls`: no stage has started, and the
    /// output of each stage has an empty stream of the given capacity.
    pub open spec fn built(calls: Seq<CallView>, capacity: nat) -> PipelineView {
        PipelineView {
            state: PipelineState::Built,
            stages: Seq::new(calls.len(), |i: int| StageState::Pending),
            contexts: Seq::new(calls.len(), |i: int| first_context(calls[i], i, capacity)),
            failure: None,
        }
    }

    /// The pipeline after it was started: a built pipeline runs, and so does
    /// each of its stages. Starting a pipeline in any other state does nothing.
    pub open spec fn after_start(self) -> PipelineView {
        if self.state == PipelineState::Built {
            PipelineView {
                state: PipelineState::Running,
                stages: Seq::new(self.stages.len(), |i: int| StageState::Running),
                ..self
            }
        } else {
            self
        }
    }

    /// Whether the report that the stage at `stage` has returned is in order:
    /// the pipeline was started and the stage is running.
    pub open spec fn expects(self, stage: int) -> bool {
        &&& self.state != PipelineState::Built
        &&& 0 <= stage < self.stages.len()
        &&& stage < self.contexts.len()
        &&& self.stages[stage] == StageState::Running
    }

    /// The pipeline after the stage at `stage` has returned with `error`, or
    /// with success where `error` is `None`.
    ///
    /// The first error makes the pipeline fail, and it stays failed. The
    /// pipeline completes when its last running stage succeeds and none has
    /// failed. A report that is not in order changes nothing.
    pub open spec fn after_return(self, stage: int, error: Option<ErrorView>) -> PipelineView {
        if !self.expects(stage) {
            self
        } else {
            let stages = self.stages.update(
                stage,
                if error is Some {
                    StageState::Failed
                } else {
                    StageState::Succeeded
                },
            );
            PipelineView {
                state: if self.state == PipelineState::Failed {
                    PipelineState::Failed
                } else if error is Some {
                    PipelineState::Failed
                } else if all_succeeded(stages) {
                    PipelineState::Completed
                } else {
                    self.state
                },
                stages,
                contexts: contexts_after(self.contexts, stage, error),
                failure: if self.failure is Some {
                    self.failure
                } else {
                    error
                },
            }
        }
    }

    /// Whether this report of an error is the one to show to the user: the
    /// first error of the pipeline is shown, once, and no later one.
    pub open spec fn reports(self, stage: int, error: Option<ErrorView>) -> bool {
        self.expects(stage) && error is Some && self.failure is None
    }
}

/// A pipeline that has failed stays failed, and keeps the error that it
/// failed with, whatever its other stages return.
pub proof fn lemma_failure_is_final(p: PipelineView, stage: int, error: Option<ErrorView>)
    requires
        p.state == PipelineState::Failed,
        p.failure is Some,
    ensures
        p.after_return(stage, error).state == PipelineState::Failed,
        p.after_return(stage, error).failure == p.failure,
        !p.reports(stage, error),
{
}

/// A running pipeline completes only with the success of a stage that leaves
/// every stage succeeded, and it has then seen no error.
pub proof fn lemma_completed_means_all_succeeded(
    p: PipelineView,
    stage: int,
    error: Option<ErrorView>,
)
    requires
        p.state == PipelineState::Running,
        p.failure is None,
    ensures
        p.after_return(stage, error).state == PipelineState::Completed ==> all_succeeded(
            p.after_return(stage, error).stages,
        ) && p.after_return(stage, error).failure is None,
{
}

/// The return of a stage ends the stream that leads out of it, so that the
/// stage after it is not left waiting: once the rows in the stream are
/// received, a receive finds the end of the data or the stage's error, and
/// never an empty stream.
pub proof fn lemma_return_ends_output(p: PipelineView, stage: int, error: Option<ErrorView>)
    requires
        p.expects(stage),
        p.contexts[stage].output.stream.sender_open,
        p.contexts[stage].output.stream.queue.len() == 0,
    ensures
        !p.after_return(stage, error).contexts[stage].output.stream.sender_open,
        p.after_return(stage, error).contexts[stage].output.stream.recv_result() != Ok::<
            ReceivedView,
            ErrorView,
        >(ReceivedView::Empty),
{
}

/// The return of a stage closes the consumer's end of the stream that leads
/// into it, so that the stage before it is not left waiting either: its next
/// send fails.
pub proof fn lemma_return_ends_input(
    p: PipelineView,
    stage: int,
    error: Option<ErrorView>,
    row: Seq<ValueView>,
)
    requires
        p.expects(stage),
        stage > 0,
    ensures
        p.after_return(stage, error).contexts[stage - 1].output.stream.send_result(row) is Err,
{
}

/// The views of a sequence of contexts, in order.
pub open spec fn contexts_of(contexts: Seq<ExecutionContext>) -> Seq<ContextView> {
    Seq::new(contexts.len(), |i: int| contexts[i]@)
}

/// The state of a pipeline and the contexts of its stages.
#[derive(Debug, PartialEq, Eq)]
pub struct Pipeline {
    state: PipelineState,
    stages: Vec<StageState>,
    contexts: Vec<ExecutionContext>,
    failure: Option<CrushError>,
}

impl View for Pipeline {
    type V = PipelineView;

    closed spec fn view(&self) -> PipelineView {
        PipelineView {
            state: self.state,
            stages: self.stages@,
            contexts: contexts_of(self.contexts@),
            failure: failure_of(self.failure),
        }
    }
}

/// `calls`, last to first.
fn reversed(calls: Vec<Call>) -> (turned: Vec<Call>)
    ensures
        turned@ == calls@.reverse(),
{
    let mut rest = calls;
    let mut turned: Vec<Call> = Vec::new();
    while rest.len() > 0
        invariant
            rest@ + turned@.reverse() == calls@,
        decreases rest@.len(),
    {
        let ghost before = rest@;
        let ghost so_far = turned@;
        let c = rest.pop().unwrap();
        turned.push(c);
        assert(before.drop_last() + so_far.push(c).reverse() =~= before + so_far.reverse());
    }
    assert(turned@.reverse() =~= calls@);
    assert(turned@.reverse().reverse() =~= turned@);
    turned
}

impl Pipeline {
    /// Builds a pipeline with one stage for each of `calls`. The output of
    /// each stage has an empty stream that holds up to `capacity` rows, and
    /// the input of each stage but the first names the stream of the stage
    /// before it.
    pub fn build(calls: Vec<Call>, capacity: usize) -> (p: Pipeline)
        ensures
            p@ == PipelineView::built(calls_of(calls@), capacity as nat),
    {
        let ghost all = calls_of(calls@);
        let ghost n = calls@.len();
        let mut rest = reversed(calls);
        let mut states: Vec<StageState> = Vec::new();
        let mut contexts: Vec<ExecutionContext> = Vec::new();
        while rest.len() > 0
            invariant
                all == calls_of(calls@),
                n == calls@.len(),
                rest@.len() + contexts@.len() == n,
                forall|k: int| 0 <= k < rest@.len() ==> rest@[k] == calls@[n - 1 - k],
                states@.len() == contexts@.len(),
                forall|k: int| 0 <= k < states@.len() ==> states@[k] == StageState::Pending,
                forall|k: int|
                    0 <= k < contexts@.len() ==> (#[trigger] contexts@[k])@ == first_context(
                        all[k],
                        k,
                        capacity as nat,
                    ),
            decreases rest@.len(),
        {
            let i = contexts.len();
            let call = rest.pop().unwrap();
            assert(call == calls@[i as int]);
            let input = if i == 0 {
                None
            } else {
                Some(Value::Stream(i - 1))
            };
            states.push(StageState::Pending);
            contexts.push(
                ExecutionContext {
                    arguments: call.arguments,
                    this: call.this,
                    input: ValueReceiver::new(input),
                    output: ValueSender::new(capacity),
                    files: call.files,
                    printer: Printer::new(),
                },
            );
        }
        let p = Pipeline { state: PipelineState::Built, stages: states, contexts, failure: None };
        assert(p@.stages =~= PipelineView::built(all, capacity as nat).stages);
        assert(p@.contexts =~= PipelineView::built(all, capacity as nat).contexts);
        p
    }

    /// Where the pipeline is in its life.
    pub fn state(&self) -> (s: PipelineState)
        ensures
            s == self@.state,
    {
        self.state
    }

    /// The number of stages.
    pub fn len(&self) -> (n: usize)
        ensures
            n == self@.stages.len(),
    {
        self.stages.len()
    }

    /// Where the stage at `stage` is in its life.
    pub fn stage(&self, stage: usize) -> (s: Option<StageState>)
        ensures
            s == if stage < self@.stages.len() {
                Some(self@.stages[stage as int])
            } else {
                None
            },
    {
        if stage < self.stages.len() {
            Some(self.stages[stage])
        } else {
            None
        }
    }

    /// The first error that a stage returned.
    pub fn failure(&self) -> (e: Option<&CrushError>)
        ensures
            match e {
                Some(e) => self@.failure == Some(e@),
                None => self@.failure is None,
            },
    {
        self.failure.as_ref()
    }

    /// The context of the stage at `stage`, for the stage to run on.
    pub fn context(&mut self, stage: usize) -> (c: Option<&mut ExecutionContext>)
        ensures
            match c {
                Some(c) => {
                    &&& stage < old(self)@.contexts.len()
                    &&& c@ == old(self)@.contexts[stage as int]
                    &&& final(self)@ == (PipelineView {
                        contexts: old(self)@.contexts.update(stage as int, final(c)@),
                        ..old(self)@
                    })
                },
                None => stage >= old(self)@.contexts.len() && final(self)@ == old(self)@,
            },
    {
        if stage < self.contexts.len() {
            let ghost before = contexts_of(self.contexts@);
            let c = &mut self.contexts[stage];
            proof {
                assert(contexts_of(after_borrow(self.contexts)@) =~= before.update(
                    stage as int,
                    final(c)@,
                ));
            }
            Some(c)
        } else {
            None
        }
    }

    /// Whether every stage has succeeded.
    fn all_succeeded(&self) -> (done: bool)
        ensures
            done == all_succeeded(self.stages@),
    {
        let mut done = true;
        let mut i: usize = 0;
        while i < self.stages.len()
            invariant
                i <= self.stages@.len(),
                done == (forall|k: int|
                    0 <= k < i ==> #[trigger] self.stages@[k] == StageState::Succeeded),
            decreases self.stages@.len() - i,
        {
            if !(self.stages[i] == StageState::Succeeded) {
                done = false;
            }
            i += 1;
        }
        done
    }

    /// Starts the pipeline.
    pub fn start(&mut self)
        ensures
            final(self)@ == old(self)@.after_start(),
    {
        if self.state == PipelineState::Built {
            self.state = PipelineState::Running;
            let n = self.stages.len();
            let mut i: usize = 0;
            while i < n
                invariant
                    i <= n,
                    n == self.stages@.len(),
                    self.state == PipelineState::Running,
                    self.contexts == old(self).contexts,
                    self.failure == old(self).failure,
                    forall|k: int| 0 <= k < i ==> self.stages@[k] == StageState::Running,
                decreases n - i,
            {
                self.stages.set(i, StageState::Running);
                i += 1;
            }
            assert(self@.stages =~= old(self)@.after_start().stages);
        }
    }

    /// Takes note that the handler of the stage at `stage` has returned
    /// `result`. The first error that any stage returns is reported to
    /// `printer`.
    pub fn stage_returned(&mut self, stage: usize, result: CrushResult<()>, printer: &mut Printer)
        ensures
            final(self)@ == old(self)@.after_return(stage as int, failure_of(result.err())),
            final(printer)@ == if old(self)@.reports(stage as int, failure_of(result.err())) {
                old(printer)@.push(DiagnosticView::Error(result.err().unwrap()@))
            } else {
                old(printer)@
            },
    {
        let in_order = !(self.state == PipelineState::Built) && stage < self.stages.len() && stage
            < self.contexts.len() && (self.stages[stage] == StageState::Running);
        if !in_order {
            return ;
        }
        let ghost before = self@;
        let ghost error = failure_of(result.err());
        match result {
            Ok(_) => {
                self.stages.set(stage, StageState::Succeeded);
                self.contexts[stage].output.stream.close();
                if stage > 0 {
                    self.contexts[stage - 1].output.stream.hang_up();
                }
                if !(self.state == PipelineState::Failed) && self.all_succeeded() {
                    self.state = PipelineState::Completed;
                }
            },
            Err(e) => {
                self.stages.set(stage, StageState::Failed);
                self.contexts[stage].output.stream.fail(e.duplicate());
                if stage > 0 {
                    self.contexts[stage - 1].output.stream.hang_up();
                }
                self.state = PipelineState::Failed;
                if self.failure.is_none() {
                    self.failure = Some(e.duplicate());
                    printer.job_error(e);
                }
            },
        }
        assert(self@.contexts =~= contexts_after(before.contexts, stage as int, error));
        assert(self@.stages =~= before.after_return(stage as int, error).stages);
    }
}

} // verus!
