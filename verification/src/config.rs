//! What a watch is configured with, and how a watch is started from it.

use vstd::prelude::*;
use crate::command::{parsed_command, CommandError, CommandSpec, CommandView};
use crate::dispatcher::{DispatchState, Dispatcher};
use crate::event::DeliveryView;
use crate::markers::{marker_list, parse_root_files};
use crate::matcher::{compiles, InvalidPattern, PathMatcher};
use crate::root::{find_project_root, is_nearest_root, no_root};
use crate::text::texts;

verus! {

/// The markers that are looked for where none are named.
pub const DEFAULT_ROOT_FILES: &'static str = "package.json,Cargo.toml";

/// Why a watch cannot start. Each of these is fatal: nothing is watched.
#[derive(Clone, Debug, PartialEq, Eq)]
pub enum StartupError {
    /// The command line gives no command.
    Command(CommandError),
    /// No ancestor of the starting directory holds a marker.
    RootNotFound,
    /// The pattern gives no matcher.
    Pattern(InvalidPattern),
}

/// The configuration of a watch: the glob that paths are matched against,
/// the command line to run, and the root markers in the order in which they
/// are tried. It is made once and not changed.
#[derive(Clone, Debug, PartialEq, Eq)]
pub struct WatchConfig {
    pub pattern: String,
    pub command: String,
    pub root_files: Vec<String>,
}

impl WatchConfig {
    /// A configuration from the three texts that the user gives; the markers
    /// come as one comma-separated text.
    pub fn new(pattern: &str, command: &str, root_files: &str) -> (config: WatchConfig)
        ensures
            config.pattern@ == pattern@,
            config.command@ == command@,
            texts(config.root_files@) == marker_list(root_files@),
            forall|i: int|
                0 <= i < config.root_files.len() ==> (#[trigger] config.root_files[i])@.len() > 0,
    {
        WatchConfig {
            pattern: pattern.to_owned(),
            command: command.to_owned(),
            root_files: parse_root_files(root_files),
        }
    }

    /// Starts a watch from the directory `start`, where `present` lists the
    /// paths that exist. The command line is parsed first, then the root is
    /// searched, then the pattern is compiled, and the first of the three
    /// that fails decides the error. Where none fails the result is a
    /// dispatcher for the root, the matcher and the command: idle, with
    /// nothing waiting.
    pub fn start(&self, start: &str, present: &[String]) -> (started: Result<
        Dispatcher,
        StartupError,
    >)
        ensures
            match started {
                Err(StartupError::Command(e)) => parsed_command(self.command@) == Err::<
                    CommandView,
                    _,
                >(e),
                Err(StartupError::RootNotFound) => {
                    &&& parsed_command(self.command@) is Ok
                    &&& no_root(start@, texts(self.root_files@), texts(present@))
                },
                Err(StartupError::Pattern(_)) => {
                    &&& parsed_command(self.command@) is Ok
                    &&& !no_root(start@, texts(self.root_files@), texts(present@))
                    &&& !compiles(self.pattern@)
                },
                Ok(dispatcher) => {
                    &&& parsed_command(self.command@) == Ok::<_, CommandError>(dispatcher@.command)
                    &&& is_nearest_root(
                        start@,
                        texts(self.root_files@),
                        texts(present@),
                        dispatcher@.root,
                    )
                    &&& compiles(self.pattern@)
                    &&& dispatcher@.glob == self.pattern@
                    &&& dispatcher@.state == DispatchState::Idle
                    &&& dispatcher@.inbox == Seq::<DeliveryView>::empty()
                },
            },
    {
        let command = match CommandSpec::parse(self.command.as_str()) {
            Ok(command) => command,
            Err(e) => {
                return Err(StartupError::Command(e));
            },
        };
        let root = match find_project_root(start, self.root_files.as_slice(), present) {
            Some(root) => root,
            None => {
                return Err(StartupError::RootNotFound);
            },
        };
        proof {
            crate::root::lemma_nearest_root_unique(
                start@,
                texts(self.root_files@),
                texts(present@),
                root@,
                root@,
            );
        }
        let matcher = match PathMatcher::compile(self.pattern.as_str()) {
            Ok(matcher) => matcher,
            Err(e) => {
                return Err(StartupError::Pattern(e));
            },
        };
        Ok(Dispatcher::new(root, matcher, command))
    }
}

} // verus!
