use lambda_scheduler::cli::{
    ansi_enabled, log_directive, run_subcommand, version_line, CliError, CliStep, LambdaArgs,
};

#[derive(Clone, Copy, Debug, PartialEq, Eq)]
enum Subcommand {
    Build,
    Deploy,
    Invoke,
    Watch,
}

fn args(
    subcommand: Option<Subcommand>,
    verbose: u8,
    color: &str,
    version: bool,
) -> LambdaArgs<Subcommand> {
    LambdaArgs { subcommand, verbose, color: color.to_string(), version }
}

#[test]
fn log_directive_follows_verbosity() {
    assert_eq!(log_directive(0, None), "cargo_lambda=info");
    assert_eq!(log_directive(0, Some("warn".to_string())), "warn");
    assert_eq!(log_directive(1, None), "cargo_lambda=debug");
    assert_eq!(log_directive(1, Some("warn".to_string())), "cargo_lambda=debug");
    assert_eq!(log_directive(2, None), "cargo_lambda=trace");
    assert_eq!(log_directive(255, Some("warn".to_string())), "cargo_lambda=trace");
}

#[test]
fn colour_choice() {
    assert_eq!(ansi_enabled("auto", true), Ok(true));
    assert_eq!(ansi_enabled("auto", false), Ok(false));
    assert_eq!(ansi_enabled("always", false), Ok(true));
    assert_eq!(ansi_enabled("never", true), Ok(false));
    assert_eq!(ansi_enabled("sometimes", true), Err(CliError::InvalidColor("sometimes".to_string())));
    assert_eq!(ansi_enabled("", true), Err(CliError::InvalidColor(String::new())));
    assert_eq!(ansi_enabled("Auto", true), Err(CliError::InvalidColor("Auto".to_string())));
}

#[test]
fn colour_error_message() {
    assert_eq!(
        CliError::InvalidColor("blue".to_string()).message(),
        "argument for --color must be auto, always, or never, but found blue"
    );
}

#[test]
fn version_goes_first() {
    assert_eq!(
        run_subcommand(args(Some(Subcommand::Build), 3, "blue", true), None, true),
        Ok(CliStep::PrintVersion)
    );
    assert_eq!(
        run_subcommand(args(None, 0, "auto", true), Some("warn".to_string()), false),
        Ok(CliStep::PrintVersion)
    );
}

#[test]
fn no_subcommand_prints_help() {
    assert_eq!(run_subcommand(args(None, 0, "auto", false), None, true), Ok(CliStep::PrintHelp));
    assert_eq!(run_subcommand(args(None, 1, "blue", false), None, true), Ok(CliStep::PrintHelp));
}

#[test]
fn subcommand_runs_with_logging() {
    assert_eq!(
        run_subcommand(args(Some(Subcommand::Build), 0, "auto", false), None, true),
        Ok(CliStep::Run {
            subcommand: Subcommand::Build,
            log_directive: "cargo_lambda=info".to_string(),
            ansi: true,
        })
    );
    assert_eq!(
        run_subcommand(
            args(Some(Subcommand::Watch), 0, "never", false),
            Some("debug".to_string()),
            true
        ),
        Ok(CliStep::Run {
            subcommand: Subcommand::Watch,
            log_directive: "debug".to_string(),
            ansi: false,
        })
    );
    assert_eq!(
        run_subcommand(args(Some(Subcommand::Invoke), 2, "always", false), None, false),
        Ok(CliStep::Run {
            subcommand: Subcommand::Invoke,
            log_directive: "cargo_lambda=trace".to_string(),
            ansi: true,
        })
    );
}

#[test]
fn bad_colour_fails_a_subcommand() {
    assert_eq!(
        run_subcommand(args(Some(Subcommand::Deploy), 0, "blue", false), None, true),
        Err(CliError::InvalidColor("blue".to_string()))
    );
}

#[test]
fn version_line_wording() {
    assert_eq!(version_line("1.2.3", "(abc 2024-01-01Z)"), "cargo-lambda 1.2.3 (abc 2024-01-01Z)");
    assert_eq!(version_line("", ""), "cargo-lambda  ");
}
