use lambda_scheduler::command::CargoOptions;
use lambda_scheduler::request::{NextEvent, RequestMetadata};
use lambda_scheduler::runner::{
    FunctionRunner, RunnerError, RunnerEvent, RunnerOutput, RunnerPhase,
};
use lambda_scheduler::watcher::WatcherConfig;
use watchexec::command::Command;

fn exec(args: &[&str]) -> Command {
    Command::Exec { prog: "cargo".to_string(), args: args.iter().map(|a| a.to_string()).collect() }
}

fn runner(name: &str) -> FunctionRunner {
    let options = CargoOptions {
        manifest_path: "Cargo.toml".to_string(),
        features: None,
        release: false,
    };
    let config = WatcherConfig {
        name: String::new(),
        bin_name: None,
        runtime_api: 0,
        only_lambda_apis: false,
        watch_paths: vec!["src".to_string()],
        ignore_paths: Vec::new(),
    };
    FunctionRunner::new(name, 5, &options, config)
}

fn running(name: &str) -> FunctionRunner {
    let mut runner = runner(name);
    let _ = runner.step(RunnerEvent::SupervisorReady);
    runner
}

fn silent() -> RunnerOutput {
    RunnerOutput { garbage_collect: None, broadcast: None, finished: None }
}

#[test]
fn new_runner_holds_command_and_config() {
    let runner = runner("hello");
    assert_eq!(runner.name, "hello");
    assert_eq!(runner.phase, RunnerPhase::Constructing);
    assert_eq!(runner.command, exec(&["run", "--bin", "hello"]));
    assert_eq!(runner.config.name, "hello");
    assert_eq!(runner.config.bin_name, Some("hello".to_string()));
    assert_eq!(runner.config.runtime_api, 5);
    assert_eq!(runner.config.watch_paths, vec!["src"]);
}

#[test]
fn new_runner_for_default_package() {
    let runner = runner("_");
    assert_eq!(runner.command, exec(&["run"]));
    assert_eq!(runner.config.name, "_");
    assert_eq!(runner.config.bin_name, None);
}

#[test]
fn supervisor_ready_starts_the_run() {
    let mut runner = runner("hello");
    assert_eq!(runner.step(RunnerEvent::SupervisorReady), silent());
    assert_eq!(runner.phase, RunnerPhase::Running);
}

#[test]
fn construction_failure_is_fatal_and_cleans() {
    let mut runner = runner("hello");
    let output = runner.step(RunnerEvent::SupervisorFailed("bad target".to_string()));
    assert_eq!(
        output,
        RunnerOutput {
            garbage_collect: Some("hello".to_string()),
            broadcast: None,
            finished: Some(Err(RunnerError::Construction("bad target".to_string()))),
        }
    );
    assert_eq!(runner.phase, RunnerPhase::Finished);
}

#[test]
fn process_exit_first_sends_one_garbage_collect() {
    let mut runner = running("hello");
    let output = runner.step(RunnerEvent::ProcessEnded);
    assert_eq!(
        output,
        RunnerOutput {
            garbage_collect: Some("hello".to_string()),
            broadcast: Some(NextEvent::Shutdown("hello function shutting down".to_string())),
            finished: Some(Ok(())),
        }
    );
    assert_eq!(runner.phase, RunnerPhase::Finished);
    assert_eq!(runner.step(RunnerEvent::ShutdownRequested), silent());
    assert_eq!(runner.step(RunnerEvent::ProcessEnded), silent());
    assert_eq!(runner.phase, RunnerPhase::Finished);
}

#[test]
fn shutdown_first_sends_no_garbage_collect() {
    let mut runner = running("hello");
    let output = runner.step(RunnerEvent::ShutdownRequested);
    assert_eq!(
        output,
        RunnerOutput {
            garbage_collect: None,
            broadcast: Some(NextEvent::Shutdown("hello function shutting down".to_string())),
            finished: Some(Ok(())),
        }
    );
    assert_eq!(runner.phase, RunnerPhase::Finished);
    assert_eq!(runner.step(RunnerEvent::ProcessEnded), silent());
    assert_eq!(runner.step(RunnerEvent::ShutdownRequested), silent());
}

#[test]
fn events_that_are_not_awaited_change_nothing() {
    let mut runner = runner("hello");
    assert_eq!(runner.step(RunnerEvent::ProcessEnded), silent());
    assert_eq!(runner.step(RunnerEvent::ShutdownRequested), silent());
    assert_eq!(runner.phase, RunnerPhase::Constructing);
    let mut runner = running("hello");
    assert_eq!(runner.step(RunnerEvent::SupervisorReady), silent());
    assert_eq!(runner.step(RunnerEvent::SupervisorFailed("late".to_string())), silent());
    assert_eq!(runner.phase, RunnerPhase::Running);
}

#[test]
fn step_leaves_name_command_and_config() {
    let mut runner = running("hello");
    let _ = runner.step(RunnerEvent::ProcessEnded);
    let fresh = self::runner("hello");
    assert_eq!(runner.name, fresh.name);
    assert_eq!(runner.command, fresh.command);
    assert_eq!(runner.config, fresh.config);
}

#[test]
fn shutdown_reason_names_the_function() {
    assert_eq!(
        NextEvent::function_shutdown("hello"),
        NextEvent::Shutdown("hello function shutting down".to_string())
    );
    assert_eq!(
        NextEvent::function_shutdown(""),
        NextEvent::Shutdown(" function shutting down".to_string())
    );
    assert_eq!(NextEvent::shutdown("bye"), NextEvent::Shutdown("bye".to_string()));
}

#[test]
fn events_and_metadata_copy_equal() {
    let metadata = RequestMetadata { deadline_ms: 42, trace_id: "root=1".to_string() };
    assert_eq!(metadata.duplicate(), metadata);
    let invoke = NextEvent::Invoke(metadata);
    assert_eq!(invoke.duplicate(), invoke);
    let shutdown = NextEvent::shutdown("gone");
    assert_eq!(shutdown.duplicate(), shutdown);
}
