//! The scheduler: the one place where the request cache changes. It takes
//! one event at a time and says what to do about it.

use crate::cache::{CacheError, CacheView, RequestCache};
use crate::command::CargoOptions;
use crate::extensions::ExtensionCache;
use crate::request::InvokeRequest;
use crate::runner::{new_runner, FunctionRunner, RunnerView};
use crate::state::RuntimeState;
use crate::watcher::{WatcherConfig, WatcherConfigView};
use std::collections::VecDeque;
use vstd::prelude::*;
use vstd::string::*;

verus! {

/// What the scheduler reacts to.
#[derive(Debug, PartialEq, Eq)]
pub enum SchedulerEvent<R> {
    /// A caller wants a function invoked.
    Invoke(InvokeRequest<R>),
    /// The runner of the named function has lost its process.
    GarbageCollect(String),
    /// The server is shutting down.
    ShutdownRequested,
}

/// What the scheduler wants done after an event.
#[derive(Debug, PartialEq, Eq)]
pub enum SchedulerAction<R> {
    /// Start this runner: its function was asked for and has no process.
    Spawn(FunctionRunner),
    /// Nothing: the request waits in its function's queue.
    Queued,
    /// Answer the request's caller with the error; the cache did not take
    /// the request.
    Rejected { request: InvokeRequest<R>, error: CacheError },
    /// Nothing: the function's entry is gone.
    Cleaned,
    /// Stop taking events.
    Stop,
}

/// A [`SchedulerAction`] over sequences of characters.
pub enum Decision<R> {
    Spawn(RunnerView),
    Queued,
    Rejected { request: InvokeRequest<R>, error: CacheError },
    Cleaned,
    Stop,
}

impl<R> View for SchedulerAction<R> {
    type V = Decision<R>;

    open spec fn view(&self) -> Decision<R> {
        match *self {
            SchedulerAction::Spawn(runner) => Decision::Spawn(runner@),
            SchedulerAction::Queued => Decision::Queued,
            SchedulerAction::Rejected { request, error } => Decision::Rejected { request, error },
            SchedulerAction::Cleaned => Decision::Cleaned,
            SchedulerAction::Stop => Decision::Stop,
        }
    }
}

/// What a scheduler is set up with and never changes.
pub struct Settings {
    /// Feature flags to build with.
    pub features: Option<Seq<char>>,
    /// Whether to build in release mode.
    pub release: bool,
    /// The configuration that each runner's own is made from.
    pub config: WatcherConfigView,
}

/// The cache after `event`: an invocation is upserted, a garbage
/// collection cleans the function's entry, a shutdown changes nothing.
pub open spec fn cache_after<R>(cache: CacheView<R>, event: SchedulerEvent<R>) -> CacheView<R> {
    match event {
        SchedulerEvent::Invoke(request) => cache.upsert(request),
        SchedulerEvent::GarbageCollect(name) => cache.clean(name@),
        SchedulerEvent::ShutdownRequested => cache,
    }
}

/// What is done about `event`. A request that the cache turns down is
/// rejected with the cache's error. A request for a function without a
/// process starts a runner, unless the server only emulates the control
/// plane; then, and for a function that is starting or running, the
/// request just waits.
pub open spec fn decision<R>(
    cache: CacheView<R>,
    settings: Settings,
    event: SchedulerEvent<R>,
) -> Decision<R> {
    match event {
        SchedulerEvent::Invoke(request) => match cache.upsert_outcome(request.function_name@) {
            Err(error) => Decision::Rejected { request, error },
            Ok(None) => Decision::Queued,
            Ok(Some((name, api_id))) => if settings.config.only_lambda_apis {
                Decision::Queued
            } else {
                Decision::Spawn(
                    new_runner(name, api_id, settings.features, settings.release, settings.config),
                )
            },
        },
        SchedulerEvent::GarbageCollect(_) => Decision::Cleaned,
        SchedulerEvent::ShutdownRequested => Decision::Stop,
    }
}

/// What is done about each of `events` in turn, up to and with the first
/// shutdown: nothing that comes after it is looked at.
pub open spec fn run_decisions<R>(
    cache: CacheView<R>,
    settings: Settings,
    events: Seq<SchedulerEvent<R>>,
) -> Seq<Decision<R>>
    decreases events.len(),
{
    if events.len() == 0 {
        Seq::empty()
    } else if events[0] is ShutdownRequested {
        seq![decision(cache, settings, events[0])]
    } else {
        seq![decision(cache, settings, events[0])] + run_decisions(
            cache_after(cache, events[0]),
            settings,
            events.drop_first(),
        )
    }
}

/// The cache after each of `events` in turn, up to the first shutdown.
pub open spec fn run_cache<R>(cache: CacheView<R>, events: Seq<SchedulerEvent<R>>) -> CacheView<R>
    decreases events.len(),
{
    if events.len() == 0 || events[0] is ShutdownRequested {
        cache
    } else {
        run_cache(cache_after(cache, events[0]), events.drop_first())
    }
}

/// The actions over sequences of characters, in order.
pub open spec fn action_views<R>(actions: Seq<SchedulerAction<R>>) -> Seq<Decision<R>> {
    actions.map_values(|a: SchedulerAction<R>| a@)
}

/// The scheduler. It alone holds the request cache, so whatever changes
/// the cache goes through it, one event at a time.
pub struct Scheduler<R> {
    /// The request cache.
    pub req_cache: RequestCache<R>,
    /// How functions are built.
    pub cargo_options: CargoOptions,
    /// How functions are watched; each runner gets a copy made out for its
    /// function.
    pub watcher_config: WatcherConfig,
}

impl<R> Scheduler<R> {
    /// The scheduler is sound when its request cache is.
    pub open spec fn wf(&self) -> bool {
        self.req_cache.wf()
    }

    /// What this scheduler was set up with.
    pub open spec fn settings(&self) -> Settings {
        Settings {
            features: self.cargo_options.features_view(),
            release: self.cargo_options.release,
            config: self.watcher_config@,
        }
    }

    /// Reacts to one event.
    ///
    /// Only a shutdown stops the scheduler; a request that the cache turns
    /// down is handed back with the error, and the next event is taken as
    /// if nothing had happened.
    pub fn step(&mut self, event: SchedulerEvent<R>) -> (action: SchedulerAction<R>)
        requires
            old(self).wf(),
        ensures
            final(self).wf(),
            final(self).settings() == old(self).settings(),
            final(self).req_cache@ == cache_after(old(self).req_cache@, event),
            action@ == decision(old(self).req_cache@, old(self).settings(), event),
            action is Stop <==> event is ShutdownRequested,
    {
        match event {
            SchedulerEvent::Invoke(request) => match self.req_cache.offer(request) {
                Err((error, request)) => SchedulerAction::Rejected { request, error },
                Ok(None) => SchedulerAction::Queued,
                Ok(Some((name, api_id))) => if self.watcher_config.only_lambda_apis {
                    SchedulerAction::Queued
                } else {
                    SchedulerAction::Spawn(
                        FunctionRunner::new(
                            name.as_str(),
                            api_id,
                            &self.cargo_options,
                            self.watcher_config.duplicate(),
                        ),
                    )
                },
            },
            SchedulerEvent::GarbageCollect(name) => {
                self.req_cache.clean(name.as_str());
                SchedulerAction::Cleaned
            },
            SchedulerEvent::ShutdownRequested => SchedulerAction::Stop,
        }
    }
}

impl<R> Scheduler<R> {
    /// Takes events off the front of `events`, oldest first, and reacts to
    /// each, until none is left or a shutdown has been taken. What came
    /// after the shutdown stays in `events`.
    pub fn run(&mut self, events: &mut VecDeque<SchedulerEvent<R>>) -> (actions: Vec<
        SchedulerAction<R>,
    >)
        requires
            old(self).wf(),
        ensures
            final(self).wf(),
            final(self).settings() == old(self).settings(),
            final(self).req_cache@ == run_cache(old(self).req_cache@, old(events)@),
            action_views(actions@) == run_decisions(
                old(self).req_cache@,
                old(self).settings(),
                old(events)@,
            ),
            final(events)@ == old(events)@.skip(actions@.len() as int),
    {
        let ghost first_cache = self.req_cache@;
        let ghost settings = self.settings();
        let ghost all = events@;
        let mut actions: Vec<SchedulerAction<R>> = Vec::new();
        let mut stopped = false;
        assert(action_views(actions@) =~= Seq::empty());
        assert(all.skip(0) =~= all);
        while !stopped && events.len() > 0
            invariant
                self.wf(),
                self.settings() == settings,
                actions@.len() <= all.len(),
                events@ == all.skip(actions@.len() as int),
                run_decisions(first_cache, settings, all) == action_views(actions@) + (if stopped {
                    Seq::empty()
                } else {
                    run_decisions(self.req_cache@, settings, events@)
                }),
                run_cache(first_cache, all) == (if stopped {
                    self.req_cache@
                } else {
                    run_cache(self.req_cache@, events@)
                }),
            decreases events@.len(),
        {
            let ghost cache = self.req_cache@;
            let ghost waiting = events@;
            let ghost done = actions@;
            match events.pop_front() {
                Some(event) => {
                    let action = self.step(event);
                    stopped = matches!(action, SchedulerAction::Stop);
                    actions.push(action);
                    proof {
                        assert(events@ =~= waiting.drop_first());
                        assert(events@ =~= all.skip(actions@.len() as int));
                        assert(action_views(actions@) =~= action_views(done) + seq![action@]);
                        assert(action_views(done) + (seq![action@] + (if stopped {
                            Seq::empty()
                        } else {
                            run_decisions(self.req_cache@, settings, events@)
                        })) =~= action_views(actions@) + (if stopped {
                            Seq::empty()
                        } else {
                            run_decisions(self.req_cache@, settings, events@)
                        }));
                    }
                },
                None => {},
            }
        }
        proof {
            if !stopped {
                assert(events@.len() == 0);
            }
            assert(action_views(actions@) + Seq::<Decision<R>>::empty() =~= action_views(actions@));
        }
        actions
    }
}

/// Sets a scheduler up on the server's state. The scheduler takes the
/// request cache for itself; the registry of listeners comes back, to be
/// shared with the runners that the scheduler starts.
pub fn init_scheduler<R>(
    state: RuntimeState<R>,
    cargo_options: CargoOptions,
    watcher_config: WatcherConfig,
) -> (started: (Scheduler<R>, ExtensionCache))
    requires
        state.wf(),
    ensures
        started.0.wf(),
        started.0.req_cache == state.req_cache,
        started.0.cargo_options == cargo_options,
        started.0.watcher_config == watcher_config,
        started.1 == state.ext_cache,
{
    (Scheduler { req_cache: state.req_cache, cargo_options, watcher_config }, state.ext_cache)
}

} // verus!
