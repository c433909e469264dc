//! How one function is built, run and watched.

use crate::command::{binary_selector, string_views};
use crate::names::is_valid_bin_name;
use vstd::prelude::*;
use vstd::string::*;

verus! {

/// What the process supervisor is told about the function it hosts.
#[derive(Clone, Debug, PartialEq, Eq)]
pub struct WatcherConfig {
    /// Name of the function.
    pub name: String,
    /// The binary to select, where the function is not the package's
    /// default binary.
    pub bin_name: Option<String>,
    /// Identifier of the control-plane endpoint that the function's
    /// process polls; the process finds it in its environment.
    pub runtime_api: u64,
    /// Whether the server only emulates the control plane and starts no
    /// process.
    pub only_lambda_apis: bool,
    /// Paths whose changes rebuild the function.
    pub watch_paths: Vec<String>,
    /// Paths whose changes are ignored.
    pub ignore_paths: Vec<String>,
}

/// A [`WatcherConfig`] over sequences of characters.
pub struct WatcherConfigView {
    pub name: Seq<char>,
    pub bin_name: Option<Seq<char>>,
    pub runtime_api: u64,
    pub only_lambda_apis: bool,
    pub watch_paths: Seq<Seq<char>>,
    pub ignore_paths: Seq<Seq<char>>,
}

impl View for WatcherConfig {
    type V = WatcherConfigView;

    open spec fn view(&self) -> WatcherConfigView {
        WatcherConfigView {
            name: self.name@,
            bin_name: match self.bin_name {
                Some(b) => Some(b@),
                None => None,
            },
            runtime_api: self.runtime_api,
            only_lambda_apis: self.only_lambda_apis,
            watch_paths: string_views(self.watch_paths@),
            ignore_paths: string_views(self.ignore_paths@),
        }
    }
}

impl WatcherConfigView {
    /// This configuration made out for the function `name` behind the
    /// endpoint `runtime_api`: the name, the binary that the name selects
    /// and the endpoint are set, the rest stays.
    pub open spec fn for_function(self, name: Seq<char>, runtime_api: u64) -> WatcherConfigView {
        WatcherConfigView { name, bin_name: binary_selector(name), runtime_api, ..self }
    }
}

/// A copy of `strings`.
pub fn copy_strings(strings: &Vec<String>) -> (copy: Vec<String>)
    ensures
        copy@ == strings@,
{
    let mut copy: Vec<String> = Vec::new();
    let mut i: usize = 0;
    while i < strings.len()
        invariant
            i <= strings.len(),
            copy@ == strings@.take(i as int),
        decreases strings.len() - i,
    {
        copy.push(strings[i].clone());
        assert(copy@ =~= strings@.take(i + 1));
        i += 1;
    }
    assert(strings@.take(strings.len() as int) =~= strings@);
    copy
}

impl WatcherConfig {
    /// A copy of this configuration.
    pub fn duplicate(&self) -> (copy: WatcherConfig)
        ensures
            copy@ == self@,
    {
        let bin_name = match &self.bin_name {
            Some(b) => Some(b.clone()),
            None => None,
        };
        WatcherConfig {
            name: self.name.clone(),
            bin_name,
            runtime_api: self.runtime_api,
            only_lambda_apis: self.only_lambda_apis,
            watch_paths: copy_strings(&self.watch_paths),
            ignore_paths: copy_strings(&self.ignore_paths),
        }
    }

    /// Makes this configuration out for the function `name` behind the
    /// endpoint `runtime_api`.
    pub fn for_function(self, name: &str, runtime_api: u64) -> (config: WatcherConfig)
        ensures
            config@ == self@.for_function(name@, runtime_api),
    {
        let bin_name = if is_valid_bin_name(name) {
            Some(name.to_owned())
        } else {
            None
        };
        WatcherConfig {
            name: name.to_owned(),
            bin_name,
            runtime_api,
            only_lambda_apis: self.only_lambda_apis,
            watch_paths: self.watch_paths,
            ignore_paths: self.ignore_paths,
        }
    }
}

} // verus!
