//! The job orchestrator: the state machine of one run. It decides what
//! is done next and which progress is published; the caller does the
//! work and reports each result as an event.

use vstd::prelude::*;
use crate::engine::RESULT_SUCCESS;
use crate::error::{error_for_code, OutputError, ReencodeFailure};
use crate::model::Job;
use crate::sampler::{call_for, check_interop_text, is_interop_text, SamplerCall};

verus! {

/// How far the input image is on its way to the engine.
#[derive(Clone, Copy, Debug, PartialEq, Eq, Structural)]
pub enum InputReencodingStatus {
    Loading,
    Resizing,
    Writing,
    Reencoded,
}

/// The observable state of a run.
#[derive(Debug, PartialEq, Eq)]
pub enum OutputProgress {
    NotStartedYet,
    InProgress { input_reencoding_status: InputReencodingStatus, outputs_finished: usize, output_count: usize },
    Succeeded { output_count: usize },
    Failed { which_failed: usize, error: OutputError },
}

/// What the caller reports back to the orchestrator.
#[derive(Debug, PartialEq, Eq)]
pub enum Event {
    /// The input image was decoded.
    InputLoaded,
    /// The input image could not be loaded; the text says why.
    InputLoadFailed(String),
    /// The image was brought within the size bound.
    InputResized,
    /// The image was written to the file at this path.
    InputWritten(String),
    /// The image could not be resized or written.
    ReencodeFailed(ReencodeFailure),
    /// The engine returned this result code for the current output.
    Sampled(i32),
}

/// What the caller is to do next.
#[derive(Debug, PartialEq, Eq)]
pub enum Action {
    /// Nothing: no run is under way.
    Idle,
    /// Decode the input image.
    LoadInput,
    /// Bring the image within the size bound.
    ResizeInput,
    /// Write the image to a temporary file.
    WriteInput,
    /// Call the engine once with these arguments.
    Sample(SamplerCall),
}

/// The answer to an event: the progress to publish, in order, and what
/// to do next.
#[derive(Debug, PartialEq, Eq)]
pub struct Step {
    pub published: Vec<OutputProgress>,
    pub action: Action,
}

/// The orchestrator of one job at a time.
#[derive(Debug, PartialEq, Eq)]
pub struct Orchestrator {
    /// The job of the current or last run.
    pub job: Job,
    /// The progress that was published last.
    pub progress: OutputProgress,
    /// The path of the reencoded input, once it is written.
    pub input_path: String,
}

/// The effect of an event: the state after it, the progress that it
/// publishes, and what is to be done next.
pub struct Transition {
    pub next: Orchestrator,
    pub published: Seq<OutputProgress>,
    pub action: Action,
}

/// Progress within the reencoding of the input.
pub open spec fn reencoding(status: InputReencodingStatus, output_count: usize) -> OutputProgress {
    OutputProgress::InProgress { input_reencoding_status: status, outputs_finished: 0, output_count }
}

/// Progress after `outputs_finished` outputs.
pub open spec fn sampling(outputs_finished: usize, output_count: usize) -> OutputProgress {
    OutputProgress::InProgress {
        input_reencoding_status: InputReencodingStatus::Reencoded,
        outputs_finished,
        output_count,
    }
}

/// The failure of the output at `which_failed`.
pub open spec fn failed(which_failed: usize, error: OutputError) -> OutputProgress {
    OutputProgress::Failed { which_failed, error }
}

/// Whether a run is over or has not begun: no event changes such a state.
pub open spec fn is_at_rest(progress: OutputProgress) -> bool {
    !(progress is InProgress)
}

/// The state `state` with `progress` published.
pub open spec fn publish(state: Orchestrator, progress: OutputProgress) -> Transition {
    Transition {
        next: Orchestrator { progress, ..state },
        published: seq![progress],
        action: Action::Idle,
    }
}

/// An event that the state does not wait for: nothing changes.
pub open spec fn ignore(state: Orchestrator) -> Transition {
    Transition { next: state, published: Seq::empty(), action: Action::Idle }
}

/// Turning to the output at `index`, after `before` was published: its
/// call is put together, or it is refused and the run fails there.
pub open spec fn turn_to_output(state: Orchestrator, before: Seq<OutputProgress>, index: usize) -> Transition {
    match call_for(state.job.outputs@[index as int], state.input_path) {
        Ok(call) => Transition { next: state, published: before, action: Action::Sample(call) },
        Err(error) => Transition {
            next: Orchestrator { progress: failed(index, error), ..state },
            published: before.push(failed(index, error)),
            action: Action::Idle,
        },
    }
}

/// The start of a run of `job`. A job without outputs starts nothing,
/// and nothing starts while a run is under way.
pub open spec fn start_of(state: Orchestrator, job: Job) -> Transition {
    if state.progress is InProgress || job.outputs.len() == 0 {
        ignore(state)
    } else {
        let progress = reencoding(InputReencodingStatus::Loading, job.outputs.len());
        Transition {
            next: Orchestrator { job, progress, input_path: state.input_path },
            published: seq![progress],
            action: Action::LoadInput,
        }
    }
}

/// The effect of `event` on `state`.
pub open spec fn step(state: Orchestrator, event: Event) -> Transition {
    let count = state.job.outputs.len();
    match state.progress {
        OutputProgress::InProgress { input_reencoding_status, outputs_finished, output_count } => {
            match (input_reencoding_status, event) {
                (InputReencodingStatus::Loading, Event::InputLoaded) => Transition {
                    action: Action::ResizeInput,
                    ..publish(state, reencoding(InputReencodingStatus::Resizing, count))
                },
                (InputReencodingStatus::Loading, Event::InputLoadFailed(reason)) => publish(
                    state,
                    failed(0, OutputError::FailedToLoadInput(reason)),
                ),
                (InputReencodingStatus::Resizing, Event::InputResized) => Transition {
                    action: Action::WriteInput,
                    ..publish(state, reencoding(InputReencodingStatus::Writing, count))
                },
                (InputReencodingStatus::Resizing, Event::ReencodeFailed(_)) => publish(
                    state,
                    failed(0, OutputError::FailedToReencodeInput),
                ),
                (InputReencodingStatus::Writing, Event::ReencodeFailed(_)) => publish(
                    state,
                    failed(0, OutputError::FailedToReencodeInput),
                ),
                (InputReencodingStatus::Writing, Event::InputWritten(path)) => {
                    if count == 0 || !is_interop_text(path@) {
                        publish(state, failed(0, OutputError::FailedToReencodeInput))
                    } else {
                        turn_to_output(
                            Orchestrator { progress: sampling(0, count), input_path: path, ..state },
                            seq![sampling(0, count)],
                            0,
                        )
                    }
                },
                (InputReencodingStatus::Reencoded, Event::Sampled(code)) => {
                    if outputs_finished >= count {
                        ignore(state)
                    } else if code != RESULT_SUCCESS {
                        publish(state, failed(outputs_finished, error_for_code(code)))
                    } else if outputs_finished + 1 == count {
                        publish(state, OutputProgress::Succeeded { output_count: count })
                    } else {
                        let finished = (outputs_finished + 1) as usize;
                        turn_to_output(
                            Orchestrator { progress: sampling(finished, count), ..state },
                            seq![sampling(finished, count)],
                            finished,
                        )
                    }
                },
                _ => ignore(state),
            }
        },
        _ => ignore(state),
    }
}

impl Clone for OutputProgress {
    fn clone(&self) -> (copy: Self)
        ensures
            copy == *self,
    {
        match self {
            OutputProgress::NotStartedYet => OutputProgress::NotStartedYet,
            OutputProgress::InProgress { input_reencoding_status, outputs_finished, output_count } => {
                OutputProgress::InProgress {
                    input_reencoding_status: *input_reencoding_status,
                    outputs_finished: *outputs_finished,
                    output_count: *output_count,
                }
            },
            OutputProgress::Succeeded { output_count } => OutputProgress::Succeeded {
                output_count: *output_count,
            },
            OutputProgress::Failed { which_failed, error } => OutputProgress::Failed {
                which_failed: *which_failed,
                error: error.clone(),
            },
        }
    }
}

impl Orchestrator {
    /// An orchestrator that has not run anything yet.
    pub fn new() -> (orchestrator: Orchestrator)
        ensures
            orchestrator.progress == OutputProgress::NotStartedYet,
            orchestrator.job.input_path@.len() == 0,
            orchestrator.job.max_image_size == 0,
            orchestrator.job.outputs.len() == 0,
            orchestrator.input_path@.len() == 0,
    {
        Orchestrator {
            job: Job { input_path: String::new(), max_image_size: 0, outputs: Vec::new() },
            progress: OutputProgress::NotStartedYet,
            input_path: String::new(),
        }
    }

    fn publish_now(&mut self, progress: OutputProgress, action: Action) -> (answer: Step)
        ensures
            final(self).job == old(self).job,
            final(self).input_path == old(self).input_path,
            final(self).progress == progress,
            answer.published@ == seq![progress],
            answer.action == action,
    {
        let mut published: Vec<OutputProgress> = Vec::new();
        published.push(progress.clone());
        self.progress = progress;
        Step { published, action }
    }

    fn ignore_now(&self) -> (answer: Step)
        ensures
            answer.published@ == Seq::<OutputProgress>::empty(),
            answer.action == Action::Idle,
    {
        Step { published: Vec::new(), action: Action::Idle }
    }

    fn turn_to(&mut self, index: usize) -> (answer: Step)
        requires
            index < old(self).job.outputs.len(),
        ensures
            ({
                let count = old(self).job.outputs.len();
                let moved = Orchestrator { progress: sampling(index, count), ..*old(self) };
                let effect = turn_to_output(moved, seq![sampling(index, count)], index);
                &&& *final(self) == effect.next
                &&& answer.published@ == effect.published
                &&& answer.action == effect.action
            }),
            answer.action matches Action::Sample(call) ==> call.well_formed(),
    {
        let count: usize = self.job.outputs.len();
        let progress = OutputProgress::InProgress {
            input_reencoding_status: InputReencodingStatus::Reencoded,
            outputs_finished: index,
            output_count: count,
        };
        let mut published: Vec<OutputProgress> = Vec::new();
        published.push(progress.clone());
        self.progress = progress;
        match SamplerCall::prepare(&self.job.outputs[index], &self.input_path) {
            Ok(call) => Step { published, action: Action::Sample(call) },
            Err(error) => {
                let failure = OutputProgress::Failed { which_failed: index, error };
                published.push(failure.clone());
                self.progress = failure;
                Step { published, action: Action::Idle }
            },
        }
    }

    /// Starts a run of `job`. A job without outputs starts nothing, and
    /// nothing starts while a run is under way.
    pub fn start(&mut self, job: Job) -> (answer: Step)
        ensures
            *final(self) == start_of(*old(self), job).next,
            answer.published@ == start_of(*old(self), job).published,
            answer.action == start_of(*old(self), job).action,
    {
        let running = match &self.progress {
            OutputProgress::InProgress { .. } => true,
            _ => false,
        };
        if running || job.outputs.len() == 0 {
            return self.ignore_now();
        }
        let count: usize = job.outputs.len();
        self.job = job;
        self.publish_now(
            OutputProgress::InProgress {
                input_reencoding_status: InputReencodingStatus::Loading,
                outputs_finished: 0,
                output_count: count,
            },
            Action::LoadInput,
        )
    }

    /// Takes the result of the work that was asked for last, and
    /// answers with the progress to publish and the work to do next. An
    /// event that the state does not wait for changes nothing.
    pub fn advance(&mut self, event: Event) -> (answer: Step)
        ensures
            *final(self) == step(*old(self), event).next,
            answer.published@ == step(*old(self), event).published,
            answer.action == step(*old(self), event).action,
            answer.action matches Action::Sample(call) ==> call.well_formed(),
    {
        let count: usize = self.job.outputs.len();
        let (status, finished) = match &self.progress {
            OutputProgress::InProgress { input_reencoding_status, outputs_finished, output_count } => (
                *input_reencoding_status,
                *outputs_finished,
            ),
            _ => {
                return self.ignore_now();
            },
        };
        match (status, event) {
            (InputReencodingStatus::Loading, Event::InputLoaded) => self.publish_now(
                OutputProgress::InProgress {
                    input_reencoding_status: InputReencodingStatus::Resizing,
                    outputs_finished: 0,
                    output_count: count,
                },
                Action::ResizeInput,
            ),
            (InputReencodingStatus::Loading, Event::InputLoadFailed(reason)) => self.publish_now(
                OutputProgress::Failed { which_failed: 0, error: OutputError::FailedToLoadInput(reason) },
                Action::Idle,
            ),
            (InputReencodingStatus::Resizing, Event::InputResized) => self.publish_now(
                OutputProgress::InProgress {
                    input_reencoding_status: InputReencodingStatus::Writing,
                    outputs_finished: 0,
                    output_count: count,
                },
                Action::WriteInput,
            ),
            (InputReencodingStatus::Resizing, Event::ReencodeFailed(_)) => self.publish_now(
                OutputProgress::Failed { which_failed: 0, error: OutputError::FailedToReencodeInput },
                Action::Idle,
            ),
            (InputReencodingStatus::Writing, Event::ReencodeFailed(_)) => self.publish_now(
                OutputProgress::Failed { which_failed: 0, error: OutputError::FailedToReencodeInput },
                Action::Idle,
            ),
            (InputReencodingStatus::Writing, Event::InputWritten(path)) => {
                if count == 0 || !check_interop_text(path.as_str()) {
                    self.publish_now(
                        OutputProgress::Failed {
                            which_failed: 0,
                            error: OutputError::FailedToReencodeInput,
                        },
                        Action::Idle,
                    )
                } else {
                    self.input_path = path;
                    self.turn_to(0)
                }
            },
            (InputReencodingStatus::Reencoded, Event::Sampled(code)) => {
                if finished >= count {
                    self.ignore_now()
                } else if code != RESULT_SUCCESS {
                    self.publish_now(
                        OutputProgress::Failed {
                            which_failed: finished,
                            error: OutputError::from_code(code),
                        },
                        Action::Idle,
                    )
                } else if finished + 1 == count {
                    self.publish_now(OutputProgress::Succeeded { output_count: count }, Action::Idle)
                } else {
                    self.turn_to(finished + 1)
                }
            },
            _ => self.ignore_now(),
        }
    }
}

/// Where a sequence of events leads: the state after them and all
/// that they publish, in order.
pub struct Course {
    pub state: Orchestrator,
    pub published: Seq<OutputProgress>,
}

/// The course of `events` from `state`.
pub open spec fn run(state: Orchestrator, events: Seq<Event>) -> Course
    decreases events.len(),
{
    if events.len() == 0 {
        Course { state, published: Seq::empty() }
    } else {
        let first = step(state, events[0]);
        let rest = run(first.next, events.drop_first());
        Course { state: rest.state, published: first.published + rest.published }
    }
}

/// The course of a run of `job` that is started from `origin` and
/// answered by `events`.
pub open spec fn run_job(origin: Orchestrator, job: Job, events: Seq<Event>) -> Course {
    let begun = start_of(origin, job);
    let rest = run(begun.next, events);
    Course { state: rest.state, published: begun.published + rest.published }
}

/// The events of a reencoding that succeeds and writes to `written`.
pub open spec fn reencoded_events(written: String) -> Seq<Event> {
    seq![Event::InputLoaded, Event::InputResized, Event::InputWritten(written)]
}

/// `count` calls of the engine that succeed.
pub open spec fn sampled_events(count: nat) -> Seq<Event> {
    Seq::new(count, |i: int| Event::Sampled(RESULT_SUCCESS))
}

/// The progress of a reencoding that succeeds.
pub open spec fn reencoded_trace(output_count: usize) -> Seq<OutputProgress> {
    seq![
        reencoding(InputReencodingStatus::Loading, output_count),
        reencoding(InputReencodingStatus::Resizing, output_count),
        reencoding(InputReencodingStatus::Writing, output_count),
        sampling(0, output_count),
    ]
}

/// The progress of `count` more outputs that succeed after `finished`
/// of them, none of them the last.
pub open spec fn sampled_trace(finished: usize, count: nat, output_count: usize) -> Seq<OutputProgress> {
    Seq::new(count, |i: int| sampling((finished + 1 + i) as usize, output_count))
}

/// The progress of a run in which every stage succeeds.
pub open spec fn success_trace(output_count: usize) -> Seq<OutputProgress> {
    reencoded_trace(output_count) + sampled_trace(0, (output_count - 1) as nat, output_count).push(
        OutputProgress::Succeeded { output_count },
    )
}

/// The progress of a run whose output at `which_failed` fails.
pub open spec fn failure_trace(output_count: usize, which_failed: usize, error: OutputError) -> Seq<
    OutputProgress,
> {
    reencoded_trace(output_count) + sampled_trace(0, which_failed as nat, output_count).push(
        failed(which_failed, error),
    )
}

/// Whether the engine can be called for each of the first `count`
/// outputs of `job` on the input at `written`.
pub open spec fn outputs_accepted(job: Job, written: String, count: int) -> bool {
    forall|i: int| 0 <= i < count ==> (#[trigger] call_for(job.outputs@[i], written)) is Ok
}

/// The course of a single event is its effect.
proof fn lemma_run_single(state: Orchestrator, event: Event)
    ensures
        run(state, seq![event]).state == step(state, event).next,
        run(state, seq![event]).published == step(state, event).published,
{
    let events = seq![event];
    let first = step(state, events[0]);
    let rest = run(first.next, events.drop_first());
    assert(events.drop_first().len() == 0);
    assert(rest.published =~= Seq::<OutputProgress>::empty());
    assert(first.published + rest.published =~= first.published);
}

/// The course of two sequences of events, one after the other, is the
/// course of the first followed by that of the second.
pub proof fn lemma_run_in_two(state: Orchestrator, first: Seq<Event>, second: Seq<Event>)
    ensures
        run(state, first + second).state == run(run(state, first).state, second).state,
        run(state, first + second).published == run(state, first).published + run(
            run(state, first).state,
            second,
        ).published,
    decreases first.len(),
{
    if first.len() == 0 {
        assert(first + second =~= second);
        assert(run(state, first).published + run(state, second).published =~= run(
            state,
            second,
        ).published);
    } else {
        let all = first + second;
        assert(all[0] == first[0]);
        assert(all.drop_first() =~= first.drop_first() + second);
        let head = step(state, first[0]);
        lemma_run_in_two(head.next, first.drop_first(), second);
        let middle = run(head.next, first.drop_first());
        let tail = run(middle.state, second);
        assert(head.published + (middle.published + tail.published) =~= (head.published
            + middle.published) + tail.published);
    }
}

/// No transition leaves a terminal state: once a run is over, or before
/// one has begun, events change nothing and publish nothing.
pub proof fn lemma_rest_is_kept(state: Orchestrator, events: Seq<Event>)
    requires
        is_at_rest(state.progress),
    ensures
        run(state, events).state == state,
        run(state, events).published == Seq::<OutputProgress>::empty(),
    decreases events.len(),
{
    if events.len() > 0 {
        lemma_rest_is_kept(state, events.drop_first());
        assert(Seq::<OutputProgress>::empty() + Seq::<OutputProgress>::empty() =~= Seq::<
            OutputProgress,
        >::empty());
    }
}

/// Outputs that succeed and are not the last are counted one by one.
proof fn lemma_outputs_counted(state: Orchestrator, finished: usize, count: nat)
    requires
        state.progress == sampling(finished, state.job.outputs.len()),
        finished + count < state.job.outputs.len(),
        outputs_accepted(state.job, state.input_path, finished + count + 1),
    ensures
        run(state, sampled_events(count)).state == (Orchestrator {
            progress: sampling((finished + count) as usize, state.job.outputs.len()),
            ..state
        }),
        run(state, sampled_events(count)).published == sampled_trace(
            finished,
            count,
            state.job.outputs.len(),
        ),
    decreases count,
{
    let total = state.job.outputs.len();
    let events = sampled_events(count);
    if count == 0 {
        assert(run(state, events).published =~= sampled_trace(finished, count, total));
    } else {
        let next = (finished + 1) as usize;
        let moved = Orchestrator { progress: sampling(next, total), ..state };
        assert(call_for(state.job.outputs@[next as int], state.input_path) is Ok);
        let first = step(state, events[0]);
        assert(first.next == moved);
        assert(first.published == seq![sampling(next, total)]);
        assert(events.drop_first() =~= sampled_events((count - 1) as nat));
        lemma_outputs_counted(moved, next, (count - 1) as nat);
        assert(first.published + sampled_trace(next, (count - 1) as nat, total) =~= sampled_trace(
            finished,
            count,
            total,
        ));
    }
}

/// A reencoding that succeeds publishes its stages and turns to the
/// first output.
proof fn lemma_reencoding_course(origin: Orchestrator, job: Job, written: String)
    requires
        is_at_rest(origin.progress),
        job.outputs.len() >= 1,
        is_interop_text(written@),
    ensures
        ({
            let total = job.outputs.len();
            let ready = Orchestrator { job, progress: sampling(0, total), input_path: written };
            let turn = turn_to_output(ready, seq![sampling(0, total)], 0);
            &&& run_job(origin, job, reencoded_events(written)).state == turn.next
            &&& run_job(origin, job, reencoded_events(written)).published == seq![
                reencoding(InputReencodingStatus::Loading, total),
                reencoding(InputReencodingStatus::Resizing, total),
                reencoding(InputReencodingStatus::Writing, total),
            ] + turn.published
        }),
{
    let total = job.outputs.len();
    let events = reencoded_events(written);
    let begun = start_of(origin, job);
    let loaded = step(begun.next, events[0]);
    let after_loaded = events.drop_first();
    let resized = step(loaded.next, after_loaded[0]);
    let after_resized = after_loaded.drop_first();
    let written_step = step(resized.next, after_resized[0]);
    let after_written = after_resized.drop_first();
    assert(after_written.len() == 0);
    assert(run(written_step.next, after_written).published =~= Seq::<OutputProgress>::empty());
    assert(run(resized.next, after_resized).published =~= written_step.published);
    assert(run(loaded.next, after_loaded).published =~= resized.published + written_step.published);
    assert(run(begun.next, events).published =~= loaded.published + (resized.published
        + written_step.published));
    assert(run_job(origin, job, events).published =~= seq![
        reencoding(InputReencodingStatus::Loading, total),
        reencoding(InputReencodingStatus::Resizing, total),
        reencoding(InputReencodingStatus::Writing, total),
    ] + written_step.published);
}

/// A reencoding that succeeds before an output that is accepted
/// publishes its four stages and waits for the engine.
proof fn lemma_reencoding_succeeds(origin: Orchestrator, job: Job, written: String)
    requires
        is_at_rest(origin.progress),
        job.outputs.len() >= 1,
        is_interop_text(written@),
        outputs_accepted(job, written, 1),
    ensures
        run_job(origin, job, reencoded_events(written)).state == (Orchestrator {
            job,
            progress: sampling(0, job.outputs.len()),
            input_path: written,
        }),
        run_job(origin, job, reencoded_events(written)).published == reencoded_trace(
            job.outputs.len(),
        ),
{
    lemma_reencoding_course(origin, job, written);
    assert(call_for(job.outputs@[0], written) is Ok);
    let total = job.outputs.len();
    assert(seq![
        reencoding(InputReencodingStatus::Loading, total),
        reencoding(InputReencodingStatus::Resizing, total),
        reencoding(InputReencodingStatus::Writing, total),
    ] + seq![sampling(0, total)] =~= reencoded_trace(total));
}

/// Where every stage of a run succeeds, the progress that is published
/// is exactly: loading, resizing, writing, reencoded, then one count for
/// each output but the last, then success.
pub proof fn lemma_successful_run(origin: Orchestrator, job: Job, written: String)
    requires
        is_at_rest(origin.progress),
        job.outputs.len() >= 1,
        is_interop_text(written@),
        outputs_accepted(job, written, job.outputs.len() as int),
    ensures
        run_job(
            origin,
            job,
            reencoded_events(written) + sampled_events(job.outputs.len() as nat),
        ).published == success_trace(job.outputs.len()),
        run_job(
            origin,
            job,
            reencoded_events(written) + sampled_events(job.outputs.len() as nat),
        ).state.progress == (OutputProgress::Succeeded { output_count: job.outputs.len() }),
{
    let total = job.outputs.len();
    let begun = start_of(origin, job);
    let reencoded = reencoded_events(written);
    let most = sampled_events((total - 1) as nat);
    let last = seq![Event::Sampled(RESULT_SUCCESS)];
    assert(sampled_events(total as nat) =~= most + last);
    lemma_reencoding_succeeds(origin, job, written);
    let ready = run(begun.next, reencoded).state;
    lemma_outputs_counted(ready, 0, (total - 1) as nat);
    let nearly = run(ready, most).state;
    lemma_run_single(nearly, Event::Sampled(RESULT_SUCCESS));
    lemma_run_in_two(ready, most, last);
    lemma_run_in_two(begun.next, reencoded, most + last);
    assert(run_job(origin, job, reencoded + (most + last)).published =~= success_trace(total));
}

/// Where the engine fails on the output at `which_failed`, the run ends
/// in the failure of that output with the error of the result code, and
/// nothing is published after it, whatever is reported later.
pub proof fn lemma_failing_output_ends_run(
    origin: Orchestrator,
    job: Job,
    written: String,
    which_failed: usize,
    code: i32,
    later: Seq<Event>,
)
    requires
        is_at_rest(origin.progress),
        which_failed < job.outputs.len(),
        code != RESULT_SUCCESS,
        is_interop_text(written@),
        outputs_accepted(job, written, which_failed + 1),
    ensures
        run_job(
            origin,
            job,
            reencoded_events(written) + sampled_events(which_failed as nat) + seq![
                Event::Sampled(code),
            ] + later,
        ).published == failure_trace(job.outputs.len(), which_failed, error_for_code(code)),
        run_job(
            origin,
            job,
            reencoded_events(written) + sampled_events(which_failed as nat) + seq![
                Event::Sampled(code),
            ] + later,
        ).state.progress == failed(which_failed, error_for_code(code)),
{
    let total = job.outputs.len();
    let begun = start_of(origin, job);
    let reencoded = reencoded_events(written);
    let most = sampled_events(which_failed as nat);
    let last = seq![Event::Sampled(code)];
    lemma_reencoding_succeeds(origin, job, written);
    let ready = run(begun.next, reencoded).state;
    lemma_outputs_counted(ready, 0, which_failed as nat);
    let nearly = run(ready, most).state;
    let end = step(nearly, Event::Sampled(code));
    lemma_run_single(nearly, Event::Sampled(code));
    lemma_rest_is_kept(end.next, later);
    lemma_run_in_two(nearly, last, later);
    lemma_run_in_two(ready, most, last + later);
    lemma_run_in_two(begun.next, reencoded, most + (last + later));
    assert(reencoded + most + last + later =~= reencoded + (most + (last + later)));
    assert(run_job(origin, job, reencoded + (most + (last + later))).published =~= failure_trace(
        total,
        which_failed,
        error_for_code(code),
    ));
}

/// Where the output at `which_failed` is refused before its call, the
/// engine is not called for it: the run ends in the failure of that
/// output with the error of the refusal, and nothing is published after
/// it, whatever is reported later.
pub proof fn lemma_refused_output_ends_run(
    origin: Orchestrator,
    job: Job,
    written: String,
    which_failed: usize,
    later: Seq<Event>,
)
    requires
        is_at_rest(origin.progress),
        which_failed < job.outputs.len(),
        is_interop_text(written@),
        outputs_accepted(job, written, which_failed as int),
        call_for(job.outputs@[which_failed as int], written) is Err,
    ensures
        run_job(
            origin,
            job,
            reencoded_events(written) + sampled_events(which_failed as nat) + later,
        ).published == failure_trace(
            job.outputs.len(),
            which_failed,
            call_for(job.outputs@[which_failed as int], written)->Err_0,
        ),
        run_job(
            origin,
            job,
            reencoded_events(written) + sampled_events(which_failed as nat) + later,
        ).state.progress == failed(
            which_failed,
            call_for(job.outputs@[which_failed as int], written)->Err_0,
        ),
{
    let total = job.outputs.len();
    let error = call_for(job.outputs@[which_failed as int], written)->Err_0;
    let begun = start_of(origin, job);
    let reencoded = reencoded_events(written);
    let all = sampled_events(which_failed as nat);
    assert(reencoded + all + later =~= reencoded + (all + later));
    lemma_run_in_two(begun.next, reencoded, all + later);
    let ready = run(begun.next, reencoded).state;
    if which_failed == 0 {
        lemma_reencoding_course(origin, job, written);
        assert(all + later =~= later);
        lemma_rest_is_kept(ready, later);
        assert(run_job(origin, job, reencoded + (all + later)).published =~= failure_trace(
            total,
            which_failed,
            error,
        ));
    } else {
        lemma_reencoding_succeeds(origin, job, written);
        let most = sampled_events((which_failed - 1) as nat);
        let last = seq![Event::Sampled(RESULT_SUCCESS)];
        assert(all =~= most + last);
        assert(all + later =~= most + (last + later));
        lemma_outputs_counted(ready, 0, (which_failed - 1) as nat);
        let nearly = run(ready, most).state;
        let end = step(nearly, Event::Sampled(RESULT_SUCCESS));
        lemma_run_single(nearly, Event::Sampled(RESULT_SUCCESS));
        lemma_rest_is_kept(end.next, later);
        lemma_run_in_two(nearly, last, later);
        lemma_run_in_two(ready, most, last + later);
        assert(run_job(origin, job, reencoded + (most + (last + later))).published =~= failure_trace(
            total,
            which_failed,
            error,
        ));
    }
}

/// Whether the progress of `state` fits its job: a run in progress or
/// succeeded counts the outputs of the job, of which there is at least
/// one; fewer outputs are finished than there are; none is finished
/// before the input is reencoded; and an output that failed is one of
/// the job's.
pub open spec fn is_consistent(state: Orchestrator) -> bool {
    match state.progress {
        OutputProgress::NotStartedYet => true,
        OutputProgress::InProgress { input_reencoding_status, outputs_finished, output_count } => {
            &&& output_count == state.job.outputs.len()
            &&& outputs_finished < output_count
            &&& input_reencoding_status != InputReencodingStatus::Reencoded ==> outputs_finished
                == 0
        },
        OutputProgress::Succeeded { output_count } => {
            &&& output_count == state.job.outputs.len()
            &&& output_count >= 1
        },
        OutputProgress::Failed { which_failed, error } => which_failed < state.job.outputs.len(),
    }
}

/// Every state that a run reaches is consistent, and a run never
/// changes its job: both hold after the start and after every event.
pub proof fn lemma_consistency_is_kept(state: Orchestrator, job: Job, event: Event)
    requires
        is_consistent(state),
    ensures
        is_consistent(start_of(state, job).next),
        is_consistent(step(state, event).next),
        step(state, event).next.job == state.job,
        forall|i: int|
            0 <= i < step(state, event).published.len() ==> is_consistent(
                Orchestrator { progress: #[trigger] step(state, event).published[i], ..state },
            ),
{
}

/// A run never changes its job, whatever is reported to it.
pub proof fn lemma_job_is_kept(state: Orchestrator, events: Seq<Event>)
    ensures
        run(state, events).state.job == state.job,
    decreases events.len(),
{
    if events.len() > 0 {
        lemma_job_is_kept(step(state, events[0]).next, events.drop_first());
    }
}

} // verus!
