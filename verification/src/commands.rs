//! The application's commands and flags as plain values, and the
//! decisions taken on them. Parsing the command line and prompting on the
//! terminal happen outside the library; the decisions on the parsed
//! values are made here.

use vstd::prelude::*;

use crate::provider::version;

verus! {

/// The parsed command line: an optional subcommand and the global flags.
#[derive(Debug)]
pub struct Args {
    pub cmd: Option<Commands>,
    pub log_level: Option<LogLevel>,
    pub interactive: Option<bool>,
    pub agent_mode: Option<bool>,
}

/// The subcommands, each with its raw string arguments as parsed.
#[derive(Debug, Clone)]
pub enum Commands {
    /// Report the application's version.
    Version { version: String },
    /// Load a directory of files into the vector table.
    Load {
        path: String,
        chunk_size: String,
        llm_provider: String,
        embed_model: String,
        api_url: String,
        api_key: String,
    },
    /// Query the vector table.
    LanceQuery {
        input: Vec<String>,
        llm_provider: String,
        api_url: String,
        api_key: String,
        model: String,
        table: String,
        database: String,
        whole_query: String,
        file_context: String,
    },
    /// Query the vector table and chat over the results.
    RagQuery {
        input: Vec<String>,
        llm_provider: String,
        embed_model: String,
        api_url: String,
        api_key: String,
        ai_model: String,
        table: String,
        database: String,
        whole_query: String,
        file_context: String,
        system_prompt: String,
        continue_chat: String,
    },
    /// Chat with the model directly.
    Generate {
        prompt: String,
        llm_provider: String,
        api_url: String,
        api_key: String,
        ai_model: String,
    },
    /// Leave the application.
    Exit,
    /// Show the manual.
    Man,
}

/// The logging verbosity a user may select.
#[derive(Debug, Clone, PartialEq, Eq, Structural)]
pub enum LogLevel {
    Debug,
    Info,
    Warn,
    Error,
    OFF,
}

/// A logging filter, from silent to most verbose.
#[derive(Debug, Clone, Copy, PartialEq, Eq, Structural)]
pub enum LevelFilter {
    Off,
    Error,
    Warn,
    Info,
    Debug,
}

impl LogLevel {
    /// The filter a selected level stands for.
    pub fn get_log_level_filter(&self) -> (r: LevelFilter)
        ensures
            r == (match self {
                LogLevel::Debug => LevelFilter::Debug,
                LogLevel::Info => LevelFilter::Info,
                LogLevel::Warn => LevelFilter::Warn,
                LogLevel::Error => LevelFilter::Error,
                LogLevel::OFF => LevelFilter::Off,
            }),
    {
        match self {
            LogLevel::Debug => LevelFilter::Debug,
            LogLevel::Info => LevelFilter::Info,
            LogLevel::Warn => LevelFilter::Warn,
            LogLevel::Error => LevelFilter::Error,
            LogLevel::OFF => LevelFilter::Off,
        }
    }
}

impl Commands {
    /// The query terms a command runs with: the given terms where any
    /// were passed, else the one line the user typed at the prompt. The
    /// prompting itself happens outside the library and hands its result
    /// in.
    pub fn fetch_prompt_from_cli(input: Vec<String>, user_input: &str) -> (r: Vec<String>)
        ensures
            input@.len() > 0 ==> r.deep_view() == input.deep_view(),
            input@.len() == 0 ==> r.deep_view() == seq![user_input@],
    {
        if input.len() == 0 {
            let mut r: Vec<String> = Vec::new();
            r.push(user_input.to_owned());
            proof {
                assert(r.deep_view() =~= seq![user_input@]);
            }
            r
        } else {
            input
        }
    }
}

/// The command a parsed command line means: the given subcommand, or
/// reporting the version where none was given.
pub fn build_args(cmd: Option<Commands>) -> (r: Commands)
    ensures
        match cmd {
            Some(_) => cmd == Some(r),
            None => r matches Commands::Version { version: v } && v@ == "1.0.0"@,
        },
{
    match cmd {
        Some(c) => c,
        None => Commands::Version { version: version().to_owned() },
    }
}

} // verus!
