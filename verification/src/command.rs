//! The command that builds and runs a function.

use crate::names::{default_package_name, is_valid_bin_name, selects_binary};
use vstd::prelude::*;
use vstd::string::*;
use watchexec::command::Command;

verus! {

/// Build options that every function of a run shares.
#[derive(Clone, Debug, PartialEq, Eq)]
pub struct CargoOptions {
    /// Location of the manifest of the package that holds the functions.
    pub manifest_path: String,
    /// Feature flags to build with, as one argument for the build tool.
    pub features: Option<String>,
    /// Whether to build in release mode.
    pub release: bool,
}

/// The supervisor's description of a command to execute. Nothing here
/// looks inside one: a command is made and handed on.
#[verifier::external_type_specification]
#[verifier::external_body]
pub struct ExCommand(Command);

/// The command that executes the program `prog` as it is, with the
/// arguments `args`.
pub uninterp spec fn exec_command(prog: Seq<char>, args: Seq<Seq<char>>) -> Command;

/// The characters of each string of `strings`, in order.
pub open spec fn string_views(strings: Seq<String>) -> Seq<Seq<char>> {
    strings.map_values(|s: String| s@)
}

impl CargoOptions {
    /// The feature flags as characters, where there are any.
    pub open spec fn features_view(&self) -> Option<Seq<char>> {
        match self.features {
            Some(f) => Some(f@),
            None => None,
        }
    }
}

/// The arguments that select the feature flags: none without flags.
pub open spec fn feature_args(features: Option<Seq<char>>) -> Seq<Seq<char>> {
    match features {
        Some(f) => seq!["--features"@, f],
        None => seq![],
    }
}

/// The argument that selects release mode: none in debug mode.
pub open spec fn release_args(release: bool) -> Seq<Seq<char>> {
    if release {
        seq!["--release"@]
    } else {
        seq![]
    }
}

/// The arguments that select the binary: none for the empty name and for
/// the default package's name, else the name itself after `--bin`.
pub open spec fn binary_args(name: Seq<char>) -> Seq<Seq<char>> {
    if selects_binary(name) {
        seq!["--bin"@, name]
    } else {
        seq![]
    }
}

/// The binary that the build is told to select for `name`, if any.
pub open spec fn binary_selector(name: Seq<char>) -> Option<Seq<char>> {
    if selects_binary(name) {
        Some(name)
    } else {
        None
    }
}

/// The empty name and the default package's name put no binary on the
/// command line; any other name puts itself there, after `--bin`.
pub proof fn lemma_binary_arguments(name: Seq<char>)
    ensures
        name.len() == 0 || name == default_package_name() ==> binary_selector(name).is_none()
            && binary_args(name) == Seq::<Seq<char>>::empty(),
        name.len() > 0 && name != default_package_name() ==> binary_selector(name) == Some(name)
            && binary_args(name) == seq!["--bin"@, name],
{
}

/// The arguments of the command that runs the function `name`: `run`, then
/// the feature flags, the release flag and the binary, each where it
/// applies.
pub open spec fn cargo_args(name: Seq<char>, features: Option<Seq<char>>, release: bool) -> Seq<
    Seq<char>,
> {
    seq!["run"@] + feature_args(features) + release_args(release) + binary_args(name)
}

/// The command that runs the function `name` with the given options: the
/// build tool with the arguments that [`cargo_args`] gives.
pub open spec fn cargo_command_spec(
    name: Seq<char>,
    features: Option<Seq<char>>,
    release: bool,
) -> Command {
    exec_command("cargo"@, cargo_args(name, features, release))
}

/// Makes `watchexec`'s `Command::Exec` out of a program and its arguments.
/// The contract claims that the command is the one that executes `prog`
/// with `args`, and so depends on the characters of both and on nothing
/// else.
#[verifier::external_body]
fn new_exec_command(prog: String, args: Vec<String>) -> (cmd: Command)
    ensures
        cmd == exec_command(prog@, string_views(args@)),
{
    Command::Exec { prog, args }
}

/// The arguments with which the build tool runs the function `name`.
pub fn cargo_arguments(name: &str, cargo_options: &CargoOptions) -> (args: Vec<String>)
    ensures
        string_views(args@) == cargo_args(
            name@,
            cargo_options.features_view(),
            cargo_options.release,
        ),
{
    let mut args: Vec<String> = Vec::new();
    args.push("run".to_owned());
    assert(string_views(args@) =~= seq!["run"@]);
    match &cargo_options.features {
        Some(features) => {
            args.push("--features".to_owned());
            args.push(features.clone());
        },
        None => {},
    }
    assert(string_views(args@) =~= seq!["run"@] + feature_args(cargo_options.features_view()));
    if cargo_options.release {
        args.push("--release".to_owned());
    }
    assert(string_views(args@) =~= seq!["run"@] + feature_args(cargo_options.features_view())
        + release_args(cargo_options.release));
    if is_valid_bin_name(name) {
        args.push("--bin".to_owned());
        args.push(name.to_owned());
    }
    assert(string_views(args@) =~= cargo_args(
        name@,
        cargo_options.features_view(),
        cargo_options.release,
    ));
    args
}

/// Builds the command that runs the function `name`.
pub fn cargo_command(name: &str, cargo_options: &CargoOptions) -> (cmd: Command)
    ensures
        cmd == cargo_command_spec(name@, cargo_options.features_view(), cargo_options.release),
{
    new_exec_command("cargo".to_owned(), cargo_arguments(name, cargo_options))
}

} // verus!
