//! What the command line asks for: which step to take, how much to log,
//! and whether to colour the output.

use crate::names::same_text;
use vstd::prelude::*;
use vstd::string::*;

verus! {

/// The arguments that all subcommands share. `S` is the subcommand with
/// its own arguments, which nothing here looks into.
#[derive(Clone, Debug, PartialEq, Eq)]
pub struct LambdaArgs<S> {
    /// The subcommand, if one was given.
    pub subcommand: Option<S>,
    /// How often the verbosity flag was given.
    pub verbose: u8,
    /// When to colour the output: `auto`, `always` or `never`.
    pub color: String,
    /// Whether the version was asked for.
    pub version: bool,
}

/// Why the command line was turned down.
#[derive(Clone, Debug, PartialEq, Eq)]
pub enum CliError {
    /// The colour choice, held here, is none of `auto`, `always`, `never`.
    InvalidColor(String),
}

/// What to do for a command line.
#[derive(Clone, Debug, PartialEq, Eq)]
pub enum CliStep<S> {
    /// Print the version and leave.
    PrintVersion,
    /// Print the usage and leave.
    PrintHelp,
    /// Set up logging and run the subcommand.
    Run {
        subcommand: S,
        /// The filter that says what is logged.
        log_directive: String,
        /// Whether the log is coloured.
        ansi: bool,
    },
}

/// A [`CliStep`] over sequences of characters.
pub enum CliStepView<S> {
    PrintVersion,
    PrintHelp,
    Run { subcommand: S, log_directive: Seq<char>, ansi: bool },
}

impl<S> View for CliStep<S> {
    type V = CliStepView<S>;

    open spec fn view(&self) -> CliStepView<S> {
        match *self {
            CliStep::PrintVersion => CliStepView::PrintVersion,
            CliStep::PrintHelp => CliStepView::PrintHelp,
            CliStep::Run { subcommand, log_directive, ansi } => CliStepView::Run {
                subcommand,
                log_directive: log_directive@,
                ansi,
            },
        }
    }
}

/// The log filter for a verbosity: without the flag, the filter that the
/// environment gives, or informational logs where it gives none; with one
/// flag, debug logs; with more, trace logs.
pub open spec fn log_directive_spec(verbose: u8, from_environment: Option<Seq<char>>) -> Seq<char> {
    if verbose == 0 {
        match from_environment {
            Some(directive) => directive,
            None => "cargo_lambda=info"@,
        }
    } else if verbose == 1 {
        "cargo_lambda=debug"@
    } else {
        "cargo_lambda=trace"@
    }
}

/// Whether the output is coloured: always, never, or, for `auto`, where
/// the output goes to a terminal. Any other choice has no answer.
pub open spec fn ansi_spec(color: Seq<char>, stdout_is_terminal: bool) -> Option<bool> {
    if color == "auto"@ {
        Some(stdout_is_terminal)
    } else if color == "always"@ {
        Some(true)
    } else if color == "never"@ {
        Some(false)
    } else {
        None
    }
}

/// The step for a command line. The version goes before everything else
/// and the usage before the colour choice, so a bad colour choice only
/// counts where a subcommand runs.
pub open spec fn step_spec<S>(
    version: bool,
    subcommand: Option<S>,
    verbose: u8,
    color: Seq<char>,
    from_environment: Option<Seq<char>>,
    stdout_is_terminal: bool,
) -> Result<CliStepView<S>, Seq<char>> {
    if version {
        Ok(CliStepView::PrintVersion)
    } else {
        match subcommand {
            None => Ok(CliStepView::PrintHelp),
            Some(subcommand) => match ansi_spec(color, stdout_is_terminal) {
                None => Err(color),
                Some(ansi) => Ok(
                    CliStepView::Run {
                        subcommand,
                        log_directive: log_directive_spec(verbose, from_environment),
                        ansi,
                    },
                ),
            },
        }
    }
}

/// The characters of an optional string.
pub open spec fn option_view(text: Option<String>) -> Option<Seq<char>> {
    match text {
        Some(t) => Some(t@),
        None => None,
    }
}

/// The log filter for a verbosity and for what the environment gives.
pub fn log_directive(verbose: u8, from_environment: Option<String>) -> (directive: String)
    ensures
        directive@ == log_directive_spec(verbose, option_view(from_environment)),
{
    if verbose == 0 {
        match from_environment {
            Some(directive) => directive,
            None => "cargo_lambda=info".to_owned(),
        }
    } else if verbose == 1 {
        "cargo_lambda=debug".to_owned()
    } else {
        "cargo_lambda=trace".to_owned()
    }
}

/// Whether the output is coloured, for a colour choice.
pub fn ansi_enabled(color: &str, stdout_is_terminal: bool) -> (res: Result<bool, CliError>)
    ensures
        match res {
            Ok(ansi) => ansi_spec(color@, stdout_is_terminal) == Some(ansi),
            Err(CliError::InvalidColor(found)) => ansi_spec(color@, stdout_is_terminal).is_none()
                && found@ == color@,
        },
{
    if same_text(color, "auto") {
        Ok(stdout_is_terminal)
    } else if same_text(color, "always") {
        Ok(true)
    } else if same_text(color, "never") {
        Ok(false)
    } else {
        Err(CliError::InvalidColor(color.to_owned()))
    }
}

/// The step for a command line, for what the environment gives as log
/// filter and for whether the output goes to a terminal.
pub fn run_subcommand<S>(
    args: LambdaArgs<S>,
    from_environment: Option<String>,
    stdout_is_terminal: bool,
) -> (res: Result<CliStep<S>, CliError>)
    ensures
        match res {
            Ok(step) => Ok::<CliStepView<S>, Seq<char>>(step@),
            Err(CliError::InvalidColor(found)) => Err(found@),
        } == step_spec(
            args.version,
            args.subcommand,
            args.verbose,
            args.color@,
            option_view(from_environment),
            stdout_is_terminal,
        ),
{
    if args.version {
        return Ok(CliStep::PrintVersion);
    }
    let subcommand = match args.subcommand {
        None => {
            return Ok(CliStep::PrintHelp);
        },
        Some(subcommand) => subcommand,
    };
    let log_directive = log_directive(args.verbose, from_environment);
    match ansi_enabled(args.color.as_str(), stdout_is_terminal) {
        Err(error) => Err(error),
        Ok(ansi) => Ok(CliStep::Run { subcommand, log_directive, ansi }),
    }
}

/// The wording of an error.
pub open spec fn message_spec(error: CliError) -> Seq<char> {
    match error {
        CliError::InvalidColor(found) =>
            "argument for --color must be auto, always, or never, but found "@ + found@,
    }
}

impl CliError {
    /// The wording of this error.
    pub fn message(&self) -> (text: String)
        ensures
            text@ == message_spec(*self),
    {
        match self {
            CliError::InvalidColor(found) => {
                "argument for --color must be auto, always, or never, but found ".to_owned().concat(
                    found.as_str(),
                )
            },
        }
    }
}

/// The line that tells the version.
pub open spec fn version_line_spec(version: Seq<char>, build_info: Seq<char>) -> Seq<char> {
    "cargo-lambda "@ + version + " "@ + build_info
}

/// The line that tells the version, from the package's version and the
/// description of the build.
pub fn version_line(version: &str, build_info: &str) -> (line: String)
    ensures
        line@ == version_line_spec(version@, build_info@),
{
    "cargo-lambda ".to_owned().concat(version).concat(" ").concat(build_info)
}

} // verus!
