//! The command line, as plain values.

use vstd::prelude::*;

verus! {

/// Hotkey that starts a recording unless another one is given.
pub const DEFAULT_HOTKEY: &'static str = "ctrl+shift+r";

/// The arguments of one invocation.
#[derive(Debug)]
pub struct Cli {
    /// Whether diagnostics are printed.
    pub verbose: bool,
    /// The subcommand; without one, a single recording is made.
    pub command: Option<Commands>,
}

/// The subcommands.
#[derive(Debug)]
pub enum Commands {
    /// Start the background service that listens for the hotkey.
    Listen { hotkey: String },
    /// Stop the background service.
    Stop,
    /// Ask whether the background service runs.
    Status,
    /// Change or show the settings.
    Config {
        openai_api_key: Option<String>,
        mistral_api_key: Option<String>,
        provider: Option<String>,
        language: Option<String>,
        show: bool,
    },
}

/// What an invocation asks the program to do.
#[derive(Debug, Clone, Copy, PartialEq, Eq, Structural)]
pub enum Task {
    /// Record once and transcribe the recording.
    RecordOnce,
    /// Run the background service.
    Listen,
    /// Stop the background service.
    Stop,
    /// Report on the background service.
    Status,
    /// Change or show the settings.
    Config,
}

impl Cli {
    /// The task that the arguments ask for.
    pub open spec fn task_of(self) -> Task {
        match self.command {
            None => Task::RecordOnce,
            Some(Commands::Listen { hotkey }) => Task::Listen,
            Some(Commands::Stop) => Task::Stop,
            Some(Commands::Status) => Task::Status,
            Some(
                Commands::Config { openai_api_key, mistral_api_key, provider, language, show },
            ) => Task::Config,
        }
    }

    /// The task that the arguments ask for: the subcommand's, or a single
    /// recording where there is no subcommand.
    pub fn task(&self) -> (r: Task)
        ensures
            r == self.task_of(),
    {
        match &self.command {
            None => Task::RecordOnce,
            Some(Commands::Listen { .. }) => Task::Listen,
            Some(Commands::Stop) => Task::Stop,
            Some(Commands::Status) => Task::Status,
            Some(Commands::Config { .. }) => Task::Config,
        }
    }
}

} // verus!
