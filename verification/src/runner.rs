//! The runner of one function: what it asks the process supervisor for,
//! and what it owes the scheduler and the listeners when its process ends
//! or the server shuts down.

use crate::command::{cargo_command, cargo_command_spec, CargoOptions};
use crate::request::{shutdown_reason, NextEvent};
use crate::watcher::{WatcherConfig, WatcherConfigView};
use vstd::prelude::*;
use vstd::string::*;
use watchexec::command::Command;

verus! {

/// Where a runner stands.
#[derive(Clone, Copy, Debug, PartialEq, Eq, Structural)]
pub enum RunnerPhase {
    /// The supervisor was asked for and has not answered.
    Constructing,
    /// The process is supervised; the runner waits for its end or for a
    /// shutdown, whichever comes first.
    Running,
    /// The runner is done.
    Finished,
}

/// What a runner can observe.
#[derive(Clone, Debug, PartialEq, Eq)]
pub enum RunnerEvent {
    /// The supervisor is in place.
    SupervisorReady,
    /// The supervisor could not be built, for the reason given.
    SupervisorFailed(String),
    /// The supervised process family has ended.
    ProcessEnded,
    /// The server is shutting down.
    ShutdownRequested,
}

/// Why a runner failed.
#[derive(Clone, Debug, PartialEq, Eq)]
pub enum RunnerError {
    /// The supervisor could not be built, for the reason given.
    Construction(String),
}

/// What a runner owes after an event.
#[derive(Debug, PartialEq, Eq)]
pub struct RunnerOutput {
    /// The function whose cache entry the scheduler is to clean.
    pub garbage_collect: Option<String>,
    /// The event to hand to the function's listeners.
    pub broadcast: Option<NextEvent>,
    /// How the runner ended, once it has.
    pub finished: Option<Result<(), RunnerError>>,
}

/// A [`RunnerOutput`] over sequences of characters.
pub struct RunnerOutputView {
    pub garbage_collect: Option<Seq<char>>,
    pub shutdown_reason: Option<Seq<char>>,
    pub finished: Option<Result<(), Seq<char>>>,
}

impl View for RunnerOutput {
    type V = RunnerOutputView;

    open spec fn view(&self) -> RunnerOutputView {
        RunnerOutputView {
            garbage_collect: match self.garbage_collect {
                Some(name) => Some(name@),
                None => None,
            },
            shutdown_reason: match self.broadcast {
                Some(NextEvent::Shutdown(reason)) => Some(reason@),
                _ => None,
            },
            finished: match self.finished {
                Some(Ok(())) => Some(Ok(())),
                Some(Err(RunnerError::Construction(reason))) => Some(Err(reason@)),
                None => None,
            },
        }
    }
}

/// Whether a runner in `phase` waits for `event`. A runner that builds its
/// supervisor waits for the supervisor's answer only; one that runs waits
/// for the end of its process and for a shutdown; one that is done waits
/// for nothing.
pub open spec fn awaited(phase: RunnerPhase, event: RunnerEvent) -> bool {
    match phase {
        RunnerPhase::Constructing => event is SupervisorReady || event is SupervisorFailed,
        RunnerPhase::Running => event is ProcessEnded || event is ShutdownRequested,
        RunnerPhase::Finished => false,
    }
}

/// The phase after `event`: an event that the runner does not wait for
/// changes nothing; the supervisor's arrival starts the run; every other
/// awaited event ends the runner.
pub open spec fn next_phase(phase: RunnerPhase, event: RunnerEvent) -> RunnerPhase {
    if !awaited(phase, event) {
        phase
    } else if event is SupervisorReady {
        RunnerPhase::Running
    } else {
        RunnerPhase::Finished
    }
}

/// Whether `event` makes the runner ask the scheduler to clean its
/// function's cache entry: when the process ended on its own, and when the
/// supervisor could not be built. A shutdown asks for no cleaning.
pub open spec fn collects_garbage(phase: RunnerPhase, event: RunnerEvent) -> bool {
    awaited(phase, event) && (event is ProcessEnded || event is SupervisorFailed)
}

/// Whether `event` makes the runner tell the listeners that the function
/// is shutting down: whichever way a run ends.
pub open spec fn announces_shutdown(phase: RunnerPhase, event: RunnerEvent) -> bool {
    awaited(phase, event) && (event is ProcessEnded || event is ShutdownRequested)
}

/// What the runner of the function `name` owes after `event` in `phase`.
pub open spec fn output_spec(name: Seq<char>, phase: RunnerPhase, event: RunnerEvent) -> RunnerOutputView {
    RunnerOutputView {
        garbage_collect: if collects_garbage(phase, event) {
            Some(name)
        } else {
            None
        },
        shutdown_reason: if announces_shutdown(phase, event) {
            Some(shutdown_reason(name))
        } else {
            None
        },
        finished: if !awaited(phase, event) {
            None
        } else {
            match event {
                RunnerEvent::SupervisorReady => None,
                RunnerEvent::SupervisorFailed(reason) => Some(Err(reason@)),
                _ => Some(Ok(())),
            }
        },
    }
}

/// The runner of one function.
#[derive(Debug, PartialEq, Eq)]
pub struct FunctionRunner {
    /// Name of the function.
    pub name: String,
    /// The command that builds and runs the function.
    pub command: Command,
    /// What the supervisor is told.
    pub config: WatcherConfig,
    /// Where the runner stands.
    pub phase: RunnerPhase,
}

/// A [`FunctionRunner`] over sequences of characters.
pub struct RunnerView {
    pub name: Seq<char>,
    pub command: Command,
    pub config: WatcherConfigView,
    pub phase: RunnerPhase,
}

impl View for FunctionRunner {
    type V = RunnerView;

    open spec fn view(&self) -> RunnerView {
        RunnerView {
            name: self.name@,
            command: self.command,
            config: self.config@,
            phase: self.phase,
        }
    }
}

/// The runner that is made for the function `name` behind the endpoint
/// `runtime_api`: it holds the command that the name and the options give
/// and the configuration made out for the function, and has yet to get its
/// supervisor.
pub open spec fn new_runner(
    name: Seq<char>,
    runtime_api: u64,
    features: Option<Seq<char>>,
    release: bool,
    config: WatcherConfigView,
) -> RunnerView {
    RunnerView {
        name,
        command: cargo_command_spec(name, features, release),
        config: config.for_function(name, runtime_api),
        phase: RunnerPhase::Constructing,
    }
}

impl FunctionRunner {
    /// Makes the runner of the function `name` behind the endpoint
    /// `runtime_api`.
    pub fn new(
        name: &str,
        runtime_api: u64,
        cargo_options: &CargoOptions,
        watcher_config: WatcherConfig,
    ) -> (runner: FunctionRunner)
        ensures
            runner@ == new_runner(
                name@,
                runtime_api,
                cargo_options.features_view(),
                cargo_options.release,
                watcher_config@,
            ),
    {
        FunctionRunner {
            name: name.to_owned(),
            command: cargo_command(name, cargo_options),
            config: watcher_config.for_function(name, runtime_api),
            phase: RunnerPhase::Constructing,
        }
    }

    /// Takes note of `event` and says what the runner owes for it.
    ///
    /// When the process ended first, the scheduler is asked to clean the
    /// function's entry; when the shutdown came first, it is not. Either
    /// way the listeners are told that the function is shutting down, and
    /// the runner is done. A supervisor that could not be built ends the
    /// runner with that failure and has the entry cleaned, so that a later
    /// request starts the function anew.
    pub fn step(&mut self, event: RunnerEvent) -> (output: RunnerOutput)
        ensures
            output@ == output_spec(old(self).name@, old(self).phase, event),
            output.broadcast is Some ==> output.broadcast->0 is Shutdown,
            final(self)@ == (RunnerView {
                phase: next_phase(old(self).phase, event),
                ..old(self)@
            }),
    {
        let silent = RunnerOutput { garbage_collect: None, broadcast: None, finished: None };
        match self.phase {
            RunnerPhase::Constructing => match event {
                RunnerEvent::SupervisorReady => {
                    self.phase = RunnerPhase::Running;
                    silent
                },
                RunnerEvent::SupervisorFailed(reason) => {
                    self.phase = RunnerPhase::Finished;
                    RunnerOutput {
                        garbage_collect: Some(self.name.clone()),
                        broadcast: None,
                        finished: Some(Err(RunnerError::Construction(reason))),
                    }
                },
                _ => silent,
            },
            RunnerPhase::Running => match event {
                RunnerEvent::ProcessEnded => {
                    self.phase = RunnerPhase::Finished;
                    RunnerOutput {
                        garbage_collect: Some(self.name.clone()),
                        broadcast: Some(NextEvent::function_shutdown(self.name.as_str())),
                        finished: Some(Ok(())),
                    }
                },
                RunnerEvent::ShutdownRequested => {
                    self.phase = RunnerPhase::Finished;
                    RunnerOutput {
                        garbage_collect: None,
                        broadcast: Some(NextEvent::function_shutdown(self.name.as_str())),
                        finished: Some(Ok(())),
                    }
                },
                _ => silent,
            },
            RunnerPhase::Finished => silent,
        }
    }
}

/// The phase of a runner that started in `phase` and saw `events` in order.
pub open spec fn phase_after(phase: RunnerPhase, events: Seq<RunnerEvent>) -> RunnerPhase
    decreases events.len(),
{
    if events.len() == 0 {
        phase
    } else {
        phase_after(next_phase(phase, events[0]), events.drop_first())
    }
}

/// How many times a runner that started in `phase` and saw `events` in
/// order asked for its function's entry to be cleaned.
pub open spec fn garbage_collections(phase: RunnerPhase, events: Seq<RunnerEvent>) -> nat
    decreases events.len(),
{
    if events.len() == 0 {
        0
    } else {
        let first: nat = if collects_garbage(phase, events[0]) {
            1
        } else {
            0
        };
        first + garbage_collections(next_phase(phase, events[0]), events.drop_first())
    }
}

/// How many times a runner that started in `phase` and saw `events` in
/// order told the listeners of a shutdown.
pub open spec fn shutdown_announcements(phase: RunnerPhase, events: Seq<RunnerEvent>) -> nat
    decreases events.len(),
{
    if events.len() == 0 {
        0
    } else {
        let first: nat = if announces_shutdown(phase, events[0]) {
            1
        } else {
            0
        };
        first + shutdown_announcements(next_phase(phase, events[0]), events.drop_first())
    }
}

/// A runner that is done stays done and owes nothing more, whatever it
/// sees.
pub proof fn lemma_finished_runner_is_silent(events: Seq<RunnerEvent>)
    ensures
        phase_after(RunnerPhase::Finished, events) == RunnerPhase::Finished,
        garbage_collections(RunnerPhase::Finished, events) == 0,
        shutdown_announcements(RunnerPhase::Finished, events) == 0,
    decreases events.len(),
{
    if events.len() > 0 {
        lemma_finished_runner_is_silent(events.drop_first());
    }
}

/// A running runner whose first awaited event is the shutdown never asks
/// for cleaning; one whose first awaited event is the end of its process
/// asks exactly once. Either way it tells the listeners of the shutdown
/// exactly once, and is done. `first` is the place of that first awaited
/// event in `events`.
pub proof fn lemma_race_outcome(events: Seq<RunnerEvent>, first: int)
    requires
        0 <= first < events.len(),
        awaited(RunnerPhase::Running, events[first]),
        forall|i: int| 0 <= i < first ==> !awaited(RunnerPhase::Running, #[trigger] events[i]),
    ensures
        phase_after(RunnerPhase::Running, events) == RunnerPhase::Finished,
        shutdown_announcements(RunnerPhase::Running, events) == 1,
        events[first] is ShutdownRequested ==> garbage_collections(RunnerPhase::Running, events)
            == 0,
        events[first] is ProcessEnded ==> garbage_collections(RunnerPhase::Running, events) == 1,
    decreases first,
{
    if first == 0 {
        lemma_finished_runner_is_silent(events.drop_first());
    } else {
        assert(!awaited(RunnerPhase::Running, events[0]));
        let rest = events.drop_first();
        assert(rest[first - 1] == events[first]);
        assert forall|i: int| 0 <= i < first - 1 implies !awaited(
            RunnerPhase::Running,
            #[trigger] rest[i],
        ) by {
            assert(rest[i] == events[i + 1]);
        }
        lemma_race_outcome(rest, first - 1);
    }
}

/// A runner that sees none of the events it waits for owes nothing and
/// stays where it is.
pub proof fn lemma_unawaited_events_change_nothing(phase: RunnerPhase, events: Seq<RunnerEvent>)
    requires
        forall|i: int| 0 <= i < events.len() ==> !awaited(phase, #[trigger] events[i]),
    ensures
        phase_after(phase, events) == phase,
        garbage_collections(phase, events) == 0,
        shutdown_announcements(phase, events) == 0,
    decreases events.len(),
{
    if events.len() > 0 {
        let rest = events.drop_first();
        assert(!awaited(phase, events[0]));
        assert forall|i: int| 0 <= i < rest.len() implies !awaited(phase, #[trigger] rest[i]) by {
            assert(rest[i] == events[i + 1]);
        }
        lemma_unawaited_events_change_nothing(phase, rest);
    }
}

/// Whatever a runner sees, from whichever phase, it asks for cleaning at
/// most once and tells the listeners of a shutdown at most once.
pub proof fn lemma_at_most_one_cleanup(phase: RunnerPhase, events: Seq<RunnerEvent>)
    ensures
        garbage_collections(phase, events) <= 1,
        shutdown_announcements(phase, events) <= 1,
    decreases events.len(),
{
    if events.len() > 0 {
        let rest = events.drop_first();
        let next = next_phase(phase, events[0]);
        lemma_at_most_one_cleanup(next, rest);
        if next == RunnerPhase::Finished {
            lemma_finished_runner_is_silent(rest);
        }
    }
}

} // verus!
