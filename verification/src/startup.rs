//! What a run of the program begins with: a configuration to create, to explain
//! or to load, and the work that was asked for.

use crate::config::{self, validate_concurrency, Config, RepoConfig, EXAMPLE_CONFIG};
use crate::selection::{self, select_repos};
use crate::text;
use vstd::prelude::*;

verus! {

/// What names one inspection among those that a window has asked for. The page
/// takes it from its clock, so that it has to hold milliseconds since 1970.
pub type InspectionToken = u64;

/// What explains a configuration: a message, an instruction, and a sample.
pub open spec fn help_words(message: Seq<char>, instruction: Seq<char>) -> Seq<char> {
    message + "\n"@ + instruction + "\n\n"@ + EXAMPLE_CONFIG@ + "\n"@
        + "Edit the repository names, paths, and build commands, then run pullkit again.\n"@
}

/// Explains a configuration.
pub fn print_config_help(message: &str, instruction: &str) -> (r: String)
    ensures
        r@ == help_words(message@, instruction@),
{
    message.to_owned().concat("\n").concat(instruction).concat("\n\n").concat(
        EXAMPLE_CONFIG,
    ).concat("\n").concat(
        "Edit the repository names, paths, and build commands, then run pullkit again.\n",
    )
}

/// What is said of a configuration that names no repository.
pub open spec fn empty_words(path: Seq<char>) -> Seq<char> {
    help_words("No repositories are configured."@, "Add repository entries to "@ + path + "."@)
}

/// Explains a configuration that names no repository.
pub fn print_empty_config_help(path: &str) -> (r: String)
    ensures
        r@ == empty_words(path@),
{
    let instruction = "Add repository entries to ".to_owned().concat(path).concat(".");
    print_config_help("No repositories are configured.", instruction.as_str())
}

/// What is said of a configuration that was just created.
pub open spec fn created_words(path: Seq<char>) -> Seq<char> {
    help_words(
        "No configuration file was found."@,
        "A sample configuration file was created at "@ + path + "."@,
    )
}

fn created_help(path: &str) -> (r: String)
    ensures
        r@ == created_words(path@),
{
    let instruction = "A sample configuration file was created at ".to_owned().concat(path).concat(
        ".",
    );
    print_config_help("No configuration file was found.", instruction.as_str())
}

/// What came of loading the configuration.
pub enum Loaded {
    /// It was loaded, and names no repository if `empty`.
    Fine { empty: bool },
    Failed { error: String },
}

/// What the program does next.
pub enum RunAction {
    /// Load the configuration, and come back with what came of it.
    Load,
    /// Open the window.
    OpenWindow,
    /// Do what was asked for on the command line.
    RunCommand,
    /// The run is over.
    Stop,
    /// The run is over, with an error.
    Fail { error: String },
}

/// What a `RunAction` says.
#[verifier::ext_equal]
pub enum RunActionView {
    Load,
    OpenWindow,
    RunCommand,
    Stop,
    Fail { error: Seq<char> },
}

impl View for RunAction {
    type V = RunActionView;

    open spec fn view(&self) -> RunActionView {
        match *self {
            RunAction::Load => RunActionView::Load,
            RunAction::OpenWindow => RunActionView::OpenWindow,
            RunAction::RunCommand => RunActionView::RunCommand,
            RunAction::Stop => RunActionView::Stop,
            RunAction::Fail { error } => RunActionView::Fail { error: error@ },
        }
    }
}

/// What to print, and what to do then.
pub struct StartStep {
    pub print: Option<String>,
    pub action: RunAction,
}

/// What a `StartStep` says.
#[verifier::ext_equal]
pub struct StartStepView {
    pub print: Option<Seq<char>>,
    pub action: RunActionView,
}

impl View for StartStep {
    type V = StartStepView;

    open spec fn view(&self) -> StartStepView {
        StartStepView { print: text::text_option(self.print), action: self.action@ }
    }
}

/// What the program does at its start. A configuration that was just `created`
/// is explained, and there is nothing to work on yet; one that is empty is
/// explained too. The window opens in any case, also on a configuration that
/// cannot be loaded.
pub open spec fn start_step(
    gui: bool,
    path: Seq<char>,
    created: bool,
    loaded: Option<Loaded>,
) -> StartStepView {
    if created {
        StartStepView {
            print: Some(created_words(path)),
            action: if gui {
                RunActionView::OpenWindow
            } else {
                RunActionView::Stop
            },
        }
    } else {
        match loaded {
            None => StartStepView { print: None, action: RunActionView::Load },
            Some(Loaded::Fine { empty }) => StartStepView {
                print: if empty {
                    Some(empty_words(path))
                } else {
                    None
                },
                action: if gui {
                    RunActionView::OpenWindow
                } else if empty {
                    RunActionView::Stop
                } else {
                    RunActionView::RunCommand
                },
            },
            Some(Loaded::Failed { error }) => StartStepView {
                print: None,
                action: if gui {
                    RunActionView::OpenWindow
                } else {
                    RunActionView::Fail { error: error@ }
                },
            },
        }
    }
}

/// Says what the program does at its start, once its configuration was created
/// where none was there, and once it was loaded.
pub fn run(gui: bool, path: &str, created: bool, loaded: Option<Loaded>) -> (r: StartStep)
    ensures
        r@ == start_step(gui, path@, created, loaded),
{
    if created {
        let action = if gui {
            RunAction::OpenWindow
        } else {
            RunAction::Stop
        };
        return StartStep { print: Some(created_help(path)), action };
    }
    match loaded {
        None => StartStep { print: None, action: RunAction::Load },
        Some(Loaded::Fine { empty }) => {
            let print = if empty {
                Some(print_empty_config_help(path))
            } else {
                None
            };
            let action = if gui {
                RunAction::OpenWindow
            } else if empty {
                RunAction::Stop
            } else {
                RunAction::RunCommand
            };
            StartStep { print, action }
        },
        Some(Loaded::Failed { error }) => {
            let action = if gui {
                RunAction::OpenWindow
            } else {
                RunAction::Fail { error }
            };
            StartStep { print: None, action }
        },
    }
}

/// A sync that was asked for on the command line.
pub struct SyncRequest {
    pub repos: Vec<RepoConfig>,
    pub concurrency: usize,
}

/// The number of repositories to work on at once: as asked for, or else as
/// configured.
pub open spec fn wanted_concurrency(jobs: Option<usize>, configured: nat) -> nat {
    match jobs {
        Some(jobs) => jobs as nat,
        None => configured,
    }
}

/// What came of reading a request: the repositories and how many of them at once,
/// or what is said against it.
pub open spec fn request_view(request: Result<SyncRequest, String>) -> Result<
    (Seq<config::RepoConfigView>, nat),
    Seq<char>,
> {
    match request {
        Ok(request) => Ok((config::repo_views(request.repos@), request.concurrency as nat)),
        Err(words) => Err(words@),
    }
}

/// The sync that is asked for on the command line.
pub open spec fn requested(
    config: config::ConfigView,
    only: Seq<Seq<char>>,
    jobs: Option<usize>,
) -> Result<(Seq<config::RepoConfigView>, nat), Seq<char>> {
    match selection::selected(config.repos, only) {
        Err(words) => Err(words),
        Ok(chosen) => if jobs is Some && !(1 <= jobs->0 <= config::MAX_CONCURRENCY) {
            Err((config::ConfigFault::ConcurrencyOutOfRange { given: jobs->0 as nat }).spoken())
        } else {
            Ok((chosen, wanted_concurrency(jobs, config.concurrency)))
        },
    }
}

/// What is said of a selection that was made in the window, where it is refused
/// before anything is loaded.
pub open spec fn selection_refusal(count: nat) -> Option<Seq<char>> {
    if count == 0 {
        Some("no repositories were selected"@)
    } else {
        None
    }
}

/// The sync that is asked for in the window.
pub open spec fn chosen_in_window(config: config::ConfigView, names: Seq<Seq<char>>) -> Result<
    (Seq<config::RepoConfigView>, nat),
    Seq<char>,
> {
    match selection_refusal(names.len()) {
        Some(words) => Err(words),
        None => requested(config, names, None),
    }
}

/// Reads a sync that was asked for: which repositories, by name, and how many at
/// once. What is asked for overrides the configuration, and is held to the same
/// bounds.
pub fn run_cli(config: &Config, only: &Vec<String>, jobs: Option<usize>) -> (r: Result<
    SyncRequest,
    String,
>)
    ensures
        request_view(r) == requested(config@, text::texts(only@), jobs),
{
    let repos = match select_repos(&config.repos, only) {
        Ok(repos) => repos,
        Err(words) => return Err(words),
    };
    let concurrency: usize = match jobs {
        Some(jobs) => match validate_concurrency(jobs) {
            Ok(()) => jobs,
            Err(error) => return Err(error.message()),
        },
        None => config.concurrency,
    };
    Ok(SyncRequest { repos, concurrency })
}

/// Why a selection that was made in the window is refused before anything is
/// loaded: where it is empty. On the command line no name means every repository,
/// which is never what an empty selection means.
pub fn refuse_selection(names: &Vec<String>) -> (r: Option<String>)
    ensures
        text::text_option(r) == selection_refusal(names@.len()),
{
    if names.len() == 0 {
        Some("no repositories were selected".to_owned())
    } else {
        None
    }
}

/// Reads a selection that was made in the window.
pub fn sync_selected(config: &Config, names: &Vec<String>) -> (r: Result<SyncRequest, String>)
    ensures
        request_view(r) == chosen_in_window(config@, text::texts(names@)),
{
    match refuse_selection(names) {
        Some(error) => Err(error),
        None => run_cli(config, names, None),
    }
}

/// A configuration is explained by a message and an instruction, each on a line,
/// then the sample between blank lines, and what to do then.
pub proof fn help_shows_the_sample(message: Seq<char>, instruction: Seq<char>, path: Seq<char>)
    ensures
        help_words(message, instruction) == message + "\n"@ + instruction + "\n\n"@
            + EXAMPLE_CONFIG@ + "\n"@
            + "Edit the repository names, paths, and build commands, then run pullkit again.\n"@,
        empty_words(path) == help_words(
            "No repositories are configured."@,
            "Add repository entries to "@ + path + "."@,
        ),
        created_words(path) == help_words(
            "No configuration file was found."@,
            "A sample configuration file was created at "@ + path + "."@,
        ),
{
}

/// The window opens whatever became of the configuration, once that is known. On
/// the command line a command runs only on a configuration that was there, could
/// be loaded and names a repository; one that could not be loaded is an error.
pub proof fn programs_start_with_their_configuration(
    path: Seq<char>,
    loaded: Option<Loaded>,
    gui: bool,
    error: String,
)
    ensures
        start_step(true, path, true, loaded).action == RunActionView::OpenWindow,
        start_step(false, path, true, loaded).action == RunActionView::Stop,
        start_step(gui, path, true, loaded).print == Some(created_words(path)),
        start_step(gui, path, false, None) == (StartStepView {
            print: None,
            action: RunActionView::Load,
        }),
        loaded is Some ==> start_step(true, path, false, loaded).action
            == RunActionView::OpenWindow,
        start_step(false, path, false, Some(Loaded::Fine { empty: false })) == (StartStepView {
            print: None,
            action: RunActionView::RunCommand,
        }),
        start_step(false, path, false, Some(Loaded::Fine { empty: true })) == (StartStepView {
            print: Some(empty_words(path)),
            action: RunActionView::Stop,
        }),
        start_step(false, path, false, Some(Loaded::Failed { error })) == (StartStepView {
            print: None,
            action: RunActionView::Fail { error: error@ },
        }),
        start_step(true, path, false, Some(Loaded::Fine { empty: true })).print == Some(
            empty_words(path),
        ),
        start_step(true, path, false, Some(Loaded::Fine { empty: false })).print is None,
        start_step(true, path, false, Some(Loaded::Failed { error })).print is None,
{
}

/// A sync on the command line is of the repositories that were named, and works on
/// as many at once as was asked for, or else as is configured. From one to ten at
/// once may be asked for; a name that is unknown is told before that is looked at.
pub proof fn requests_override_the_configuration(
    config: config::ConfigView,
    only: Seq<Seq<char>>,
    jobs: usize,
)
    ensures
        match selection::selected(config.repos, only) {
            Err(words) => {
                &&& requested(config, only, Some(jobs)) == Err::<
                    (Seq<config::RepoConfigView>, nat),
                    Seq<char>,
                >(words)
                &&& requested(config, only, None) == Err::<
                    (Seq<config::RepoConfigView>, nat),
                    Seq<char>,
                >(words)
            },
            Ok(chosen) => {
                &&& requested(config, only, None) == Ok::<
                    (Seq<config::RepoConfigView>, nat),
                    Seq<char>,
                >((chosen, config.concurrency))
                &&& 1 <= jobs <= 10 ==> requested(config, only, Some(jobs)) == Ok::<
                    (Seq<config::RepoConfigView>, nat),
                    Seq<char>,
                >((chosen, jobs as nat))
                &&& jobs == 0 || jobs > 10 ==> requested(config, only, Some(jobs)) == Err::<
                    (Seq<config::RepoConfigView>, nat),
                    Seq<char>,
                >((config::ConfigFault::ConcurrencyOutOfRange { given: jobs as nat }).spoken())
            },
        },
{
}

/// In the window nothing chosen means nothing, and is refused; else the sync is the
/// one that these names ask for on the command line, with no number.
pub proof fn an_empty_selection_is_refused(config: config::ConfigView, names: Seq<Seq<char>>)
    ensures
        names.len() == 0 ==> chosen_in_window(config, names) == Err::<
            (Seq<config::RepoConfigView>, nat),
            Seq<char>,
        >("no repositories were selected"@),
        names.len() > 0 ==> chosen_in_window(config, names) == requested(config, names, None),
        selection_refusal(0) == Some("no repositories were selected"@),
        names.len() > 0 ==> selection_refusal(names.len()) is None,
{
}

} // verus!
