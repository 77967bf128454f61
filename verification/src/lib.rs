//! Inspects and syncs configured git repositories: what it reads of them, what it
//! decides about them, and how it shows it. What the operating system, git and
//! the terminal have to do is done outside and told to the library.

pub mod commands;
pub mod commits;
pub mod config;
pub mod git;
pub mod jobs;
pub mod list;
pub mod locks;
pub mod output;
pub mod paths;
pub mod report;
pub mod runner;
pub mod runs;
pub mod screen;
pub mod selection;
pub mod startup;
pub mod status;
pub mod style;
pub mod sync;
pub mod text;
pub mod width;

pub use commands::{
    interrupt_running_commands, stop_leftover_commands, stop_running_commands,
    terminate_running_commands, Commands, Isolation,
};
pub use commits::{inspect_commits, inspect_commits_parallel, CommitInfo, RepoCommits};
pub use config::{
    config_path, initialize_config, load_config, load_config_from, validate_concurrency, Config,
    RepoConfig, DEFAULT_CONCURRENCY, EXAMPLE_CONFIG, MAX_CONCURRENCY,
};
pub use screen::{Outcome, Row, SyncScreen};
pub use status::{inspect, RepoStatus};
pub use sync::{sync_repo, sync_repos, SyncEvent, SyncOutcome, SyncResult, EVENT_QUEUE};
