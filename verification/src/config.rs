//! The configuration: which repositories there are, and how many of them a sync
//! works on at once.

use crate::paths::{self, PathStyle};
use crate::text;
use vstd::prelude::*;

verus! {

/// The configuration that is written where there is none yet.
pub const EXAMPLE_CONFIG: &'static str = "concurrency: 4\nrepos:\n  - name: myapp\n    path: ~/projects/myapp\n    build_command: cargo build\n  - name: web-frontend\n    path: ~/projects/web-frontend\n    build_command: npm run build\n";

/// How many repositories a sync works on at once when the configuration does
/// not say.
pub const DEFAULT_CONCURRENCY: usize = 4;

/// The most repositories that a sync works on at once.
pub const MAX_CONCURRENCY: usize = 10;

/// One repository of the configuration.
#[derive(Debug)]
pub struct RepoConfig {
    pub name: String,
    pub path: String,
    pub build_command: Option<String>,
}

/// The configuration.
#[derive(Debug)]
pub struct Config {
    /// How many repositories a sync pulls and builds at the same time.
    pub concurrency: usize,
    pub repos: Vec<RepoConfig>,
}

/// What a `RepoConfig` holds.
#[verifier::ext_equal]
pub struct RepoConfigView {
    pub name: Seq<char>,
    pub path: Seq<char>,
    pub build_command: Option<Seq<char>>,
}

/// What a `Config` holds.
#[verifier::ext_equal]
pub struct ConfigView {
    pub concurrency: nat,
    pub repos: Seq<RepoConfigView>,
}

impl View for RepoConfig {
    type V = RepoConfigView;

    open spec fn view(&self) -> RepoConfigView {
        RepoConfigView {
            name: self.name@,
            path: self.path@,
            build_command: text::text_option(self.build_command),
        }
    }
}

/// What a list of repositories holds.
pub open spec fn repo_views(repos: Seq<RepoConfig>) -> Seq<RepoConfigView> {
    Seq::new(repos.len(), |i: int| repos[i]@)
}

impl View for Config {
    type V = ConfigView;

    open spec fn view(&self) -> ConfigView {
        ConfigView { concurrency: self.concurrency as nat, repos: repo_views(self.repos@) }
    }
}

/// Copies an optional string.
pub fn clone_option(value: &Option<String>) -> (r: Option<String>)
    ensures
        r == *value,
{
    match value {
        Some(text) => Some(text.clone()),
        None => None,
    }
}

impl Clone for RepoConfig {
    fn clone(&self) -> (r: RepoConfig)
        ensures
            r == *self,
    {
        RepoConfig {
            name: self.name.clone(),
            path: self.path.clone(),
            build_command: clone_option(&self.build_command),
        }
    }
}

/// Copies a list of repositories.
pub fn clone_repos(repos: &Vec<RepoConfig>) -> (r: Vec<RepoConfig>)
    ensures
        r@ == repos@,
{
    let mut r: Vec<RepoConfig> = Vec::new();
    for i in 0..repos.len()
        invariant
            r@ == repos@.take(i as int),
    {
        r.push(repos[i].clone());
        assert(repos@.take(i + 1) == repos@.take(i as int).push(repos@[i as int]));
    }
    assert(repos@.take(repos@.len() as int) == repos@);
    r
}

impl Clone for Config {
    fn clone(&self) -> (r: Config)
        ensures
            r@ == self@,
    {
        Config { concurrency: self.concurrency, repos: clone_repos(&self.repos) }
    }
}

/// What can be wrong with a configuration or with the file that holds it.
#[derive(Debug)]
pub enum ConfigError {
    HomeNotSet,
    DirectoryNotCreated { path: String, cause: String },
    SampleNotCreated { path: String, cause: String },
    Unreadable { path: String, cause: String },
    InvalidYaml { path: String, cause: String },
    ConcurrencyOutOfRange { given: usize },
    EmptyName { position: usize },
    EmptyPath { name: String },
    DuplicateName { name: String },
    SameDirectory { other: String, name: String },
}

/// What a `ConfigError` holds.
#[verifier::ext_equal]
pub enum ConfigFault {
    HomeNotSet,
    DirectoryNotCreated { path: Seq<char>, cause: Seq<char> },
    SampleNotCreated { path: Seq<char>, cause: Seq<char> },
    Unreadable { path: Seq<char>, cause: Seq<char> },
    InvalidYaml { path: Seq<char>, cause: Seq<char> },
    ConcurrencyOutOfRange { given: nat },
    EmptyName { position: nat },
    EmptyPath { name: Seq<char> },
    DuplicateName { name: Seq<char> },
    SameDirectory { other: Seq<char>, name: Seq<char> },
}

impl View for ConfigError {
    type V = ConfigFault;

    open spec fn view(&self) -> ConfigFault {
        match *self {
            ConfigError::HomeNotSet => ConfigFault::HomeNotSet,
            ConfigError::DirectoryNotCreated { path, cause } => ConfigFault::DirectoryNotCreated {
                path: path@,
                cause: cause@,
            },
            ConfigError::SampleNotCreated { path, cause } => ConfigFault::SampleNotCreated {
                path: path@,
                cause: cause@,
            },
            ConfigError::Unreadable { path, cause } => ConfigFault::Unreadable {
                path: path@,
                cause: cause@,
            },
            ConfigError::InvalidYaml { path, cause } => ConfigFault::InvalidYaml {
                path: path@,
                cause: cause@,
            },
            ConfigError::ConcurrencyOutOfRange { given } => ConfigFault::ConcurrencyOutOfRange {
                given: given as nat,
            },
            ConfigError::EmptyName { position } => ConfigFault::EmptyName {
                position: position as nat,
            },
            ConfigError::EmptyPath { name } => ConfigFault::EmptyPath { name: name@ },
            ConfigError::DuplicateName { name } => ConfigFault::DuplicateName { name: name@ },
            ConfigError::SameDirectory { other, name } => ConfigFault::SameDirectory {
                other: other@,
                name: name@,
            },
        }
    }
}

impl ConfigFault {
    /// The fault in words.
    pub open spec fn spoken(self) -> Seq<char> {
        match self {
            ConfigFault::HomeNotSet => "HOME is not set"@,
            ConfigFault::DirectoryNotCreated { path, cause } =>
                "could not create config directory at "@ + path + ": "@ + cause,
            ConfigFault::SampleNotCreated { path, cause } =>
                "could not create sample config at "@ + path + ": "@ + cause,
            ConfigFault::Unreadable { path, cause } => "could not read config at "@ + path + ": "@
                + cause,
            ConfigFault::InvalidYaml { path, cause } => "invalid YAML in "@ + path + ": "@ + cause,
            ConfigFault::ConcurrencyOutOfRange { given } => "concurrency must be between 1 and 10, not "@
                + text::decimal(given),
            ConfigFault::EmptyName { position } => "repo "@ + text::decimal(position)
                + " has an empty name"@,
            ConfigFault::EmptyPath { name } => "repo '"@ + name + "' has an empty path"@,
            ConfigFault::DuplicateName { name } => "duplicate repo name '"@ + name + "'"@,
            ConfigFault::SameDirectory { other, name } => "repos '"@ + other + "' and '"@ + name
                + "' point at the same directory"@,
        }
    }
}

impl ConfigError {
    /// Puts the error in words.
    pub fn message(&self) -> (r: String)
        ensures
            r@ == self@.spoken(),
    {
        match self {
            ConfigError::HomeNotSet => "HOME is not set".to_owned(),
            ConfigError::DirectoryNotCreated { path, cause } =>
                "could not create config directory at ".to_owned().concat(path.as_str()).concat(
                    ": ",
                ).concat(cause.as_str()),
            ConfigError::SampleNotCreated { path, cause } =>
                "could not create sample config at ".to_owned().concat(path.as_str()).concat(
                    ": ",
                ).concat(cause.as_str()),
            ConfigError::Unreadable { path, cause } => "could not read config at ".to_owned().concat(
                path.as_str(),
            ).concat(": ").concat(cause.as_str()),
            ConfigError::InvalidYaml { path, cause } => "invalid YAML in ".to_owned().concat(
                path.as_str(),
            ).concat(": ").concat(cause.as_str()),
            ConfigError::ConcurrencyOutOfRange { given } =>
                "concurrency must be between 1 and 10, not ".to_owned().concat(
                    text::decimal_text(*given as u64).as_str(),
                ),
            ConfigError::EmptyName { position } => "repo ".to_owned().concat(
                text::decimal_text(*position as u64).as_str(),
            ).concat(" has an empty name"),
            ConfigError::EmptyPath { name } => "repo '".to_owned().concat(name.as_str()).concat(
                "' has an empty path",
            ),
            ConfigError::DuplicateName { name } => "duplicate repo name '".to_owned().concat(
                name.as_str(),
            ).concat("'"),
            ConfigError::SameDirectory { other, name } => "repos '".to_owned().concat(
                other.as_str(),
            ).concat("' and '").concat(name.as_str()).concat("' point at the same directory"),
        }
    }
}

/// The concurrency of a configuration that names none.
pub fn default_concurrency() -> (r: usize)
    ensures
        r == DEFAULT_CONCURRENCY,
{
    DEFAULT_CONCURRENCY
}

/// What is wrong with a concurrency.
pub open spec fn concurrency_fault(concurrency: nat) -> Option<ConfigFault> {
    if 1 <= concurrency <= MAX_CONCURRENCY {
        None
    } else {
        Some(ConfigFault::ConcurrencyOutOfRange { given: concurrency })
    }
}

/// Accepts a concurrency from 1 to the maximum, and no other.
pub fn validate_concurrency(concurrency: usize) -> (r: Result<(), ConfigError>)
    ensures
        match concurrency_fault(concurrency as nat) {
            Some(fault) => r is Err && r->Err_0@ == fault,
            None => r is Ok,
        },
{
    if 1 <= concurrency && concurrency <= MAX_CONCURRENCY {
        Ok(())
    } else {
        Err(ConfigError::ConcurrencyOutOfRange { given: concurrency })
    }
}

/// What the paths of the repositories were resolved to: nothing where a path
/// could not be followed.
pub open spec fn resolved_views(resolved: Seq<Option<String>>) -> Seq<Option<Seq<char>>> {
    Seq::new(resolved.len(), |i: int| text::text_option(resolved[i]))
}

/// What the path of repository `i` was resolved to.
pub open spec fn resolved_at(resolved: Seq<Option<Seq<char>>>, i: int) -> Option<Seq<char>> {
    if 0 <= i < resolved.len() {
        resolved[i]
    } else {
        None
    }
}

/// Whether repositories `i` and `j` stand in one directory: their paths are the
/// same, or both were resolved, and to the same path.
pub open spec fn is_same_directory(
    style: PathStyle,
    repos: Seq<RepoConfigView>,
    resolved: Seq<Option<Seq<char>>>,
    i: int,
    j: int,
) -> bool {
    ||| paths::is_same_path(style, repos[i].path, repos[j].path)
    ||| match (resolved_at(resolved, i), resolved_at(resolved, j)) {
        (Some(left), Some(right)) => paths::is_same_path(style, left, right),
        _ => false,
    }
}

/// The first repository from `j` on, and before `i`, that stands in the
/// directory of repository `i`.
pub open spec fn first_in_directory(
    style: PathStyle,
    repos: Seq<RepoConfigView>,
    resolved: Seq<Option<Seq<char>>>,
    i: int,
    j: int,
) -> Option<int>
    decreases i - j,
{
    if j >= i {
        None
    } else if is_same_directory(style, repos, resolved, j, i) {
        Some(j)
    } else {
        first_in_directory(style, repos, resolved, i, j + 1)
    }
}

/// Whether one of the repositories before `i` has its name.
pub open spec fn is_name_taken(repos: Seq<RepoConfigView>, i: int) -> bool {
    exists|j: int| 0 <= j < i && #[trigger] repos[j].name == repos[i].name
}

/// What is wrong with repository `i`, seen against those before it.
pub open spec fn repo_fault(
    style: PathStyle,
    repos: Seq<RepoConfigView>,
    resolved: Seq<Option<Seq<char>>>,
    i: int,
) -> Option<ConfigFault> {
    if text::is_blank(repos[i].name) {
        Some(ConfigFault::EmptyName { position: (i + 1) as nat })
    } else if repos[i].path.len() == 0 {
        Some(ConfigFault::EmptyPath { name: repos[i].name })
    } else if is_name_taken(repos, i) {
        Some(ConfigFault::DuplicateName { name: repos[i].name })
    } else {
        match first_in_directory(style, repos, resolved, i, 0) {
            Some(j) => Some(
                ConfigFault::SameDirectory { other: repos[j].name, name: repos[i].name },
            ),
            None => None,
        }
    }
}

/// What is wrong with the first faulty repository from `i` on.
pub open spec fn repos_fault(
    style: PathStyle,
    repos: Seq<RepoConfigView>,
    resolved: Seq<Option<Seq<char>>>,
    i: int,
) -> Option<ConfigFault>
    decreases repos.len() - i,
{
    if i >= repos.len() {
        None
    } else {
        match repo_fault(style, repos, resolved, i) {
            Some(fault) => Some(fault),
            None => repos_fault(style, repos, resolved, i + 1),
        }
    }
}

/// The first thing that is wrong with a configuration.
pub open spec fn config_fault(
    style: PathStyle,
    config: ConfigView,
    resolved: Seq<Option<Seq<char>>>,
) -> Option<ConfigFault> {
    if 1 <= config.concurrency <= MAX_CONCURRENCY {
        repos_fault(style, config.repos, resolved, 0)
    } else {
        Some(ConfigFault::ConcurrencyOutOfRange { given: config.concurrency })
    }
}

/// Whether a configuration is one to work with.
pub open spec fn is_sound(
    style: PathStyle,
    config: ConfigView,
    resolved: Seq<Option<Seq<char>>>,
) -> bool {
    &&& 1 <= config.concurrency <= MAX_CONCURRENCY
    &&& forall|i: int|
        0 <= i < config.repos.len() ==> !text::is_blank(#[trigger] config.repos[i].name)
            && config.repos[i].path.len() > 0
    &&& forall|i: int, j: int|
        0 <= j < i < config.repos.len() ==> #[trigger] config.repos[j].name
            != #[trigger] config.repos[i].name
    &&& forall|i: int, j: int|
        0 <= j < i < config.repos.len() ==> !#[trigger] is_same_directory(
            style,
            config.repos,
            resolved,
            j,
            i,
        )
}

proof fn lemma_first_in_directory(
    style: PathStyle,
    repos: Seq<RepoConfigView>,
    resolved: Seq<Option<Seq<char>>>,
    i: int,
    j: int,
)
    requires
        0 <= j <= i,
    ensures
        first_in_directory(style, repos, resolved, i, j) is None <==> forall|k: int|
            j <= k < i ==> !#[trigger] is_same_directory(style, repos, resolved, k, i),
    decreases i - j,
{
    if j < i && !is_same_directory(style, repos, resolved, j, i) {
        lemma_first_in_directory(style, repos, resolved, i, j + 1);
    }
}

proof fn lemma_repos_fault(
    style: PathStyle,
    repos: Seq<RepoConfigView>,
    resolved: Seq<Option<Seq<char>>>,
    i: int,
)
    requires
        0 <= i <= repos.len(),
    ensures
        repos_fault(style, repos, resolved, i) is None <==> forall|k: int|
            i <= k < repos.len() ==> #[trigger] repo_fault(style, repos, resolved, k) is None,
    decreases repos.len() - i,
{
    if i < repos.len() {
        lemma_repos_fault(style, repos, resolved, i + 1);
        if repo_fault(style, repos, resolved, i) is None && repos_fault(
            style,
            repos,
            resolved,
            i + 1,
        ) is None {
            assert forall|k: int| i <= k < repos.len() implies #[trigger] repo_fault(
                style,
                repos,
                resolved,
                k,
            ) is None by {}
        }
    }
}

/// A configuration is accepted just when its concurrency is in range and its
/// repositories all have a name and a path, no two of them the same name, and
/// no two of them the same directory.
pub proof fn sound_configs_are_accepted(
    style: PathStyle,
    config: ConfigView,
    resolved: Seq<Option<Seq<char>>>,
)
    ensures
        config_fault(style, config, resolved) is None <==> is_sound(style, config, resolved),
{
    let repos = config.repos;
    lemma_repos_fault(style, repos, resolved, 0);
    assert forall|i: int| 0 <= i < repos.len() implies (#[trigger] repo_fault(style, repos, resolved, i)
        is None <==> {
        &&& !text::is_blank(repos[i].name)
        &&& repos[i].path.len() > 0
        &&& forall|j: int| 0 <= j < i ==> #[trigger] repos[j].name != repos[i].name
        &&& forall|j: int| 0 <= j < i ==> !#[trigger] is_same_directory(style, repos, resolved, j, i)
    }) by {
        lemma_first_in_directory(style, repos, resolved, i, 0);
    }
    if is_sound(style, config, resolved) {
        assert forall|i: int| 0 <= i < repos.len() implies #[trigger] repo_fault(
            style,
            repos,
            resolved,
            i,
        ) is None by {}
    }
    if config_fault(style, config, resolved) is None {
        assert forall|i: int| 0 <= i < repos.len() implies !text::is_blank(
            #[trigger] repos[i].name,
        ) && repos[i].path.len() > 0 by {
            assert(repo_fault(style, repos, resolved, i) is None);
        }
        assert forall|i: int, j: int| 0 <= j < i < repos.len() implies #[trigger] repos[j].name
            != #[trigger] repos[i].name by {
            assert(repo_fault(style, repos, resolved, i) is None);
        }
        assert forall|i: int, j: int| 0 <= j < i < repos.len() implies !#[trigger] is_same_directory(
            style,
            repos,
            resolved,
            j,
            i,
        ) by {
            assert(repo_fault(style, repos, resolved, i) is None);
        }
    }
}

fn resolved_path(resolved: &Vec<Option<String>>, i: usize) -> (r: Option<&String>)
    ensures
        match r {
            Some(path) => resolved_at(resolved_views(resolved@), i as int) == Some(path@),
            None => resolved_at(resolved_views(resolved@), i as int) is None,
        },
{
    if i < resolved.len() {
        match &resolved[i] {
            Some(path) => Some(path),
            None => None,
        }
    } else {
        None
    }
}

/// Whether repositories `i` and `j` stand in one directory. `resolved` holds,
/// for each path, what the file system resolves it to.
fn same_directory(
    style: PathStyle,
    repos: &Vec<RepoConfig>,
    resolved: &Vec<Option<String>>,
    i: usize,
    j: usize,
) -> (r: bool)
    requires
        i < repos@.len(),
        j < repos@.len(),
    ensures
        r == is_same_directory(
            style,
            repo_views(repos@),
            resolved_views(resolved@),
            i as int,
            j as int,
        ),
{
    if paths::same_path(style, repos[i].path.as_str(), repos[j].path.as_str()) {
        return true;
    }
    match (resolved_path(resolved, i), resolved_path(resolved, j)) {
        (Some(left), Some(right)) => paths::same_path(style, left.as_str(), right.as_str()),
        _ => false,
    }
}

fn validate_repo(
    style: PathStyle,
    repos: &Vec<RepoConfig>,
    resolved: &Vec<Option<String>>,
    index: usize,
) -> (r: Result<(), ConfigError>)
    requires
        index < repos.len(),
    ensures
        match repo_fault(style, repo_views(repos@), resolved_views(resolved@), index as int) {
            Some(fault) => r is Err && r->Err_0@ == fault,
            None => r is Ok,
        },
{
    let ghost views = repo_views(repos@);
    let ghost found = resolved_views(resolved@);
    let repo = &repos[index];
    if text::blank(repo.name.as_str()) {
        return Err(ConfigError::EmptyName { position: index + 1 });
    }
    if repo.path.as_str().is_empty() {
        return Err(ConfigError::EmptyPath { name: repo.name.clone() });
    }
    for j in 0..index
        invariant
            index < repos@.len(),
            repo == repos@[index as int],
            views == repo_views(repos@),
            found == resolved_views(resolved@),
            !text::is_blank(views[index as int].name),
            views[index as int].path.len() > 0,
            forall|k: int| 0 <= k < j ==> #[trigger] views[k].name != views[index as int].name,
    {
        if repos[j].name == repo.name {
            assert(views[j as int].name == views[index as int].name);
            assert(is_name_taken(views, index as int));
            return Err(ConfigError::DuplicateName { name: repo.name.clone() });
        }
    }
    assert(!is_name_taken(views, index as int));
    for j in 0..index
        invariant
            index < repos@.len(),
            repo == repos@[index as int],
            views == repo_views(repos@),
            found == resolved_views(resolved@),
            !text::is_blank(views[index as int].name),
            views[index as int].path.len() > 0,
            !is_name_taken(views, index as int),
            first_in_directory(style, views, found, index as int, j as int) == first_in_directory(
                style,
                views,
                found,
                index as int,
                0,
            ),
    {
        if same_directory(style, repos, resolved, j, index) {
            return Err(
                ConfigError::SameDirectory {
                    other: repos[j].name.clone(),
                    name: repo.name.clone(),
                },
            );
        }
    }
    Ok(())
}

/// Accepts a configuration or names the first thing that is wrong with it.
/// `resolved` holds, for each repository, what the file system resolves its
/// path to, and nothing where it cannot.
pub fn validate_config(
    style: PathStyle,
    config: &Config,
    resolved: &Vec<Option<String>>,
) -> (r: Result<(), ConfigError>)
    ensures
        match config_fault(style, config@, resolved_views(resolved@)) {
            Some(fault) => r is Err && r->Err_0@ == fault,
            None => r is Ok,
        },
{
    match validate_concurrency(config.concurrency) {
        Err(error) => return Err(error),
        Ok(()) => {},
    }
    let ghost views = repo_views(config.repos@);
    let ghost found = resolved_views(resolved@);
    for index in 0..config.repos.len()
        invariant
            views == repo_views(config.repos@),
            found == resolved_views(resolved@),
            config_fault(style, config@, found) == repos_fault(style, views, found, index as int),
    {
        match validate_repo(style, &config.repos, resolved, index) {
            Err(error) => return Err(error),
            Ok(()) => {},
        }
    }
    Ok(())
}

/// The repository with its path expanded.
pub open spec fn expanded_repo(
    style: PathStyle,
    repo: RepoConfigView,
    home: Seq<char>,
) -> RepoConfigView {
    RepoConfigView { path: paths::expanded(style, repo.path, home), ..repo }
}

/// The configuration with every path expanded.
pub open spec fn expanded_config(
    style: PathStyle,
    config: ConfigView,
    home: Seq<char>,
) -> ConfigView {
    ConfigView {
        concurrency: config.concurrency,
        repos: Seq::new(config.repos.len(), |i: int| expanded_repo(style, config.repos[i], home)),
    }
}

/// Whether any path of the configuration needs the home directory.
pub open spec fn needs_home(style: PathStyle, config: ConfigView) -> bool {
    exists|i: int|
        0 <= i < config.repos.len() && paths::is_under_home(style, #[trigger] config.repos[i].path)
}

/// Puts `home` in the place of `~` in the paths of the configuration.
pub fn expand_repo_paths_from(style: PathStyle, config: &mut Config, home: &str)
    ensures
        final(config)@ == expanded_config(style, old(config)@, home@),
{
    let ghost before = config@;
    let count: usize = config.repos.len();
    let mut repos: Vec<RepoConfig> = Vec::new();
    for i in 0..count
        invariant
            count == config.repos@.len(),
            config@ == before,
            repos@.len() == i,
            forall|j: int|
                0 <= j < i ==> #[trigger] repos@[j]@ == expanded_repo(style, before.repos[j], home@),
    {
        let repo = &config.repos[i];
        repos.push(
            RepoConfig {
                name: repo.name.clone(),
                path: paths::expand_path(style, repo.path.as_str(), home),
                build_command: clone_option(&repo.build_command),
            },
        );
        assert(before.repos[i as int] == repo@);
    }
    config.repos = repos;
    assert(config@.repos == expanded_config(style, before, home@).repos);
}

/// The configuration with the home directory in the place of `~`; an error where
/// that is needed and not known.
pub open spec fn expansion(style: PathStyle, config: ConfigView, home: Option<Seq<char>>) -> Result<
    ConfigView,
    ConfigFault,
> {
    if !needs_home(style, config) {
        Ok(config)
    } else {
        match home {
            Some(home) => Ok(expanded_config(style, config, home)),
            None => Err(ConfigFault::HomeNotSet),
        }
    }
}

/// Puts the home directory in the place of `~`. Only a configuration with such
/// a path needs to know where the home directory is.
pub fn expand_repo_paths(style: PathStyle, config: &mut Config, home: Option<&str>) -> (r: Result<
    (),
    ConfigError,
>)
    ensures
        match expansion(style, old(config)@, str_option(home)) {
            Ok(after) => r is Ok && final(config)@ == after,
            Err(fault) => r is Err && r->Err_0@ == fault && final(config)@ == old(config)@,
        },
{
    let ghost before = config@;
    let count: usize = config.repos.len();
    for i in 0..count
        invariant
            count == config.repos@.len(),
            config@ == before,
            before == old(config)@,
            forall|j: int| 0 <= j < i ==> !paths::is_under_home(style, #[trigger] before.repos[j].path),
    {
        if paths::under_home(style, config.repos[i].path.as_str()) {
            assert(paths::is_under_home(style, before.repos[i as int].path));
            match home {
                Some(home) => {
                    expand_repo_paths_from(style, config, home);
                    return Ok(());
                },
                None => return Err(ConfigError::HomeNotSet),
            }
        }
    }
    Ok(())
}

/// Where the configuration file is.
pub open spec fn config_file(style: PathStyle, home: Seq<char>) -> Seq<char> {
    paths::joined_path(style, home, ".config/pullkit/config.yaml"@)
}

/// The directory that the configuration file is in.
pub open spec fn config_directory(style: PathStyle, home: Seq<char>) -> Seq<char> {
    paths::joined_path(style, home, ".config/pullkit"@)
}

/// Where the configuration file is, if the home directory is known.
pub open spec fn config_place(style: PathStyle, home: Option<Seq<char>>) -> Result<
    Seq<char>,
    ConfigFault,
> {
    match home {
        Some(home) => Ok(config_file(style, home)),
        None => Err(ConfigFault::HomeNotSet),
    }
}

/// Where the configuration file is, given the home directory.
pub fn config_path(style: PathStyle, home: Option<&str>) -> (r: Result<String, ConfigError>)
    ensures
        match config_place(style, str_option(home)) {
            Ok(path) => r is Ok && r->Ok_0@ == path,
            Err(fault) => r is Err && r->Err_0@ == fault,
        },
{
    match home {
        Some(home) => Ok(paths::join_path(style, home, ".config/pullkit/config.yaml")),
        None => Err(ConfigError::HomeNotSet),
    }
}

/// How far the creation of a missing configuration file has come.
pub enum InitStage {
    Start,
    /// Something, or nothing, is at the path of the file.
    LookedFor { exists: bool },
    /// The directory of the file could not be made.
    DirectoryFailed { cause: String },
    /// The file could not be written.
    WriteFailed { cause: String },
    Written,
}

/// What is to be done next about a missing configuration file.
pub enum InitStep {
    /// Look whether there is something at the path.
    LookFor { path: String },
    /// Make the directory and all above it, then write the file.
    Create { directory: String, path: String, contents: String },
    /// All is done; the path of the file where it was created.
    Done { created: Option<String> },
    Failed { error: ConfigError },
}

/// What a step of the creation says.
#[verifier::ext_equal]
pub enum InitStepView {
    LookFor { path: Seq<char> },
    Create { directory: Seq<char>, path: Seq<char>, contents: Seq<char> },
    Done { created: Option<Seq<char>> },
    Failed { fault: ConfigFault },
}

impl View for InitStep {
    type V = InitStepView;

    open spec fn view(&self) -> InitStepView {
        match *self {
            InitStep::LookFor { path } => InitStepView::LookFor { path: path@ },
            InitStep::Create { directory, path, contents } => InitStepView::Create {
                directory: directory@,
                path: path@,
                contents: contents@,
            },
            InitStep::Done { created } => InitStepView::Done {
                created: text::text_option(created),
            },
            InitStep::Failed { error } => InitStepView::Failed { fault: error@ },
        }
    }
}

/// The step that follows a stage of the creation.
pub open spec fn init_step(style: PathStyle, home: Seq<char>, stage: InitStage) -> InitStepView {
    match stage {
        InitStage::Start => InitStepView::LookFor { path: config_file(style, home) },
        InitStage::LookedFor { exists } => if exists {
            InitStepView::Done { created: None }
        } else {
            InitStepView::Create {
                directory: config_directory(style, home),
                path: config_file(style, home),
                contents: EXAMPLE_CONFIG@,
            }
        },
        InitStage::DirectoryFailed { cause } => InitStepView::Failed {
            fault: ConfigFault::DirectoryNotCreated {
                path: config_directory(style, home),
                cause: cause@,
            },
        },
        InitStage::WriteFailed { cause } => InitStepView::Failed {
            fault: ConfigFault::SampleNotCreated { path: config_file(style, home), cause: cause@ },
        },
        InitStage::Written => InitStepView::Done { created: Some(config_file(style, home)) },
    }
}

/// The same where the home directory may not be known.
pub open spec fn init_result(
    style: PathStyle,
    home: Option<Seq<char>>,
    stage: InitStage,
) -> InitStepView {
    match home {
        Some(home) => init_step(style, home, stage),
        None => InitStepView::Failed { fault: ConfigFault::HomeNotSet },
    }
}

/// Creates the configuration file from the sample where there is none, and
/// never writes over one that is there.
pub fn initialize_config(style: PathStyle, home: Option<&str>, stage: InitStage) -> (r: InitStep)
    ensures
        r@ == init_result(style, str_option(home), stage),
{
    let base = match home {
        Some(home) => home,
        None => return InitStep::Failed { error: ConfigError::HomeNotSet },
    };
    let path = paths::join_path(style, base, ".config/pullkit/config.yaml");
    let directory = paths::join_path(style, base, ".config/pullkit");
    match stage {
        InitStage::Start => InitStep::LookFor { path },
        InitStage::LookedFor { exists } => if exists {
            InitStep::Done { created: None }
        } else {
            InitStep::Create { directory, path, contents: EXAMPLE_CONFIG.to_owned() }
        },
        InitStage::DirectoryFailed { cause } => InitStep::Failed {
            error: ConfigError::DirectoryNotCreated { path: directory, cause },
        },
        InitStage::WriteFailed { cause } => InitStep::Failed {
            error: ConfigError::SampleNotCreated { path, cause },
        },
        InitStage::Written => InitStep::Done { created: Some(path) },
    }
}

/// How far the loading of the configuration has come.
pub enum LoadStage {
    Start,
    /// The file could not be read.
    ReadFailed { cause: String },
    /// The file does not hold a configuration.
    ParseFailed { cause: String },
    /// What the file holds.
    Parsed { config: Config },
    /// The configuration with its paths expanded, and what the file system
    /// resolves each of them to.
    Resolved { config: Config, resolved: Vec<Option<String>> },
}

/// What is to be done next to load the configuration.
pub enum LoadStep {
    /// Read the file and parse it.
    Read { path: String },
    /// Resolve the path of every repository.
    Resolve { config: Config },
    Loaded { config: Config },
    Failed { error: ConfigError },
}

/// What a step of the loading says.
#[verifier::ext_equal]
pub enum LoadStepView {
    Read { path: Seq<char> },
    Resolve { config: ConfigView },
    Loaded { config: ConfigView },
    Failed { fault: ConfigFault },
}

impl View for LoadStep {
    type V = LoadStepView;

    open spec fn view(&self) -> LoadStepView {
        match *self {
            LoadStep::Read { path } => LoadStepView::Read { path: path@ },
            LoadStep::Resolve { config } => LoadStepView::Resolve { config: config@ },
            LoadStep::Loaded { config } => LoadStepView::Loaded { config: config@ },
            LoadStep::Failed { error } => LoadStepView::Failed { fault: error@ },
        }
    }
}

/// The step that follows a stage of the loading of the file at `path`.
pub open spec fn load_step(
    style: PathStyle,
    path: Seq<char>,
    home: Option<Seq<char>>,
    stage: LoadStage,
) -> LoadStepView {
    match stage {
        LoadStage::Start => LoadStepView::Read { path },
        LoadStage::ReadFailed { cause } => LoadStepView::Failed {
            fault: ConfigFault::Unreadable { path, cause: cause@ },
        },
        LoadStage::ParseFailed { cause } => LoadStepView::Failed {
            fault: ConfigFault::InvalidYaml { path, cause: cause@ },
        },
        LoadStage::Parsed { config } => if !needs_home(style, config@) {
            LoadStepView::Resolve { config: config@ }
        } else {
            match home {
                Some(home) => LoadStepView::Resolve { config: expanded_config(style, config@, home) },
                None => LoadStepView::Failed { fault: ConfigFault::HomeNotSet },
            }
        },
        LoadStage::Resolved { config, resolved } => match config_fault(
            style,
            config@,
            resolved_views(resolved@),
        ) {
            Some(fault) => LoadStepView::Failed { fault },
            None => LoadStepView::Loaded { config: config@ },
        },
    }
}

/// The contents of an optional text.
pub open spec fn str_option(value: Option<&str>) -> Option<Seq<char>> {
    match value {
        Some(text) => Some(text@),
        None => None,
    }
}

/// Loads the configuration at `path`: reads it, parses it, expands its paths
/// and accepts it or not.
pub fn load_config_from(
    style: PathStyle,
    path: &str,
    home: Option<&str>,
    stage: LoadStage,
) -> (r: LoadStep)
    ensures
        r@ == load_step(style, path@, str_option(home), stage),
{
    match stage {
        LoadStage::Start => LoadStep::Read { path: path.to_owned() },
        LoadStage::ReadFailed { cause } => LoadStep::Failed {
            error: ConfigError::Unreadable { path: path.to_owned(), cause },
        },
        LoadStage::ParseFailed { cause } => LoadStep::Failed {
            error: ConfigError::InvalidYaml { path: path.to_owned(), cause },
        },
        LoadStage::Parsed { config } => {
            let mut config = config;
            match expand_repo_paths(style, &mut config, home) {
                Ok(()) => LoadStep::Resolve { config },
                Err(error) => LoadStep::Failed { error },
            }
        },
        LoadStage::Resolved { config, resolved } => match validate_config(style, &config, &resolved) {
            Ok(()) => LoadStep::Loaded { config },
            Err(error) => LoadStep::Failed { error },
        },
    }
}

/// How the configuration of the user whose home directory is `home` is loaded.
pub open spec fn load_result(
    style: PathStyle,
    home: Option<Seq<char>>,
    stage: LoadStage,
) -> LoadStepView {
    match config_place(style, home) {
        Ok(path) => load_step(style, path, home, stage),
        Err(fault) => LoadStepView::Failed { fault },
    }
}

/// Loads the configuration of the user whose home directory is `home`.
pub fn load_config(style: PathStyle, home: Option<&str>, stage: LoadStage) -> (r: LoadStep)
    ensures
        r@ == load_result(style, str_option(home), stage),
{
    match config_path(style, home) {
        Ok(path) => load_config_from(style, path.as_str(), home, stage),
        Err(error) => LoadStep::Failed { error },
    }
}

/// What is loaded is a configuration to work with, as it was resolved.
pub proof fn loaded_configs_are_sound(
    style: PathStyle,
    path: Seq<char>,
    home: Option<Seq<char>>,
    config: Config,
    resolved: Vec<Option<String>>,
)
    ensures
        load_step(style, path, home, LoadStage::Resolved { config, resolved }) is Loaded <==> is_sound(
            style,
            config@,
            resolved_views(resolved@),
        ),
        load_step(style, path, home, LoadStage::Resolved { config, resolved }) matches LoadStepView::Loaded {
            config: loaded,
        } ==> loaded == config@,
{
    sound_configs_are_accepted(style, config@, resolved_views(resolved@));
}

/// No path of a configuration that goes on to be resolved starts at `~`, unless
/// the home directory itself does.
pub proof fn resolved_configs_are_expanded(
    style: PathStyle,
    path: Seq<char>,
    home: Seq<char>,
    config: Config,
    i: int,
)
    requires
        home.len() > 0,
        !paths::is_under_home(style, home),
        0 <= i < config@.repos.len(),
    ensures
        load_step(style, path, Some(home), LoadStage::Parsed { config }) matches LoadStepView::Resolve {
            config: expanded,
        } && expanded.concurrency == config@.concurrency && expanded.repos.len()
            == config@.repos.len() && expanded.repos[i].name == config@.repos[i].name
            && expanded.repos[i].build_command == config@.repos[i].build_command
            && !paths::is_under_home(style, expanded.repos[i].path),
{
    if needs_home(style, config@) {
        paths::expansion_is_complete(style, config@.repos[i].path, home);
    }
}

/// A configuration file is written just where there is none, from the sample; one
/// that is there is never written over. It is in `.config/pullkit` under the home
/// directory.
pub proof fn a_configuration_is_never_written_over(
    style: PathStyle,
    home: Seq<char>,
    stage: InitStage,
)
    ensures
        init_step(style, home, stage) is Create <==> stage == (InitStage::LookedFor {
            exists: false,
        }),
        init_step(style, home, stage) matches InitStepView::Create {
            directory,
            path,
            contents,
        } ==> contents == EXAMPLE_CONFIG@ && directory == config_directory(style, home) && path
            == config_file(style, home),
        stage is Start ==> init_step(style, home, stage) == (InitStepView::LookFor {
            path: config_file(style, home),
        }),
        stage == (InitStage::LookedFor { exists: true }) ==> init_step(style, home, stage) == (
        InitStepView::Done { created: None }),
        stage is Written ==> init_step(style, home, stage) == (InitStepView::Done {
            created: Some(config_file(style, home)),
        }),
        stage matches InitStage::DirectoryFailed { cause } ==> init_step(style, home, stage) == (
        InitStepView::Failed {
            fault: ConfigFault::DirectoryNotCreated {
                path: config_directory(style, home),
                cause: cause@,
            },
        }),
        stage matches InitStage::WriteFailed { cause } ==> init_step(style, home, stage) == (
        InitStepView::Failed {
            fault: ConfigFault::SampleNotCreated { path: config_file(style, home), cause: cause@ },
        }),
        config_file(style, home) == paths::joined_path(style, home, ".config/pullkit/config.yaml"@),
        config_directory(style, home) == paths::joined_path(style, home, ".config/pullkit"@),
{
}

/// On Unix the configuration file is `.config/pullkit/config.yaml` under the home
/// directory.
pub proof fn the_configuration_is_under_home(home: Seq<char>)
    requires
        home.len() > 0,
        home.last() != '/',
    ensures
        config_file(PathStyle::Unix, home) == home + "/.config/pullkit/config.yaml"@,
        config_directory(PathStyle::Unix, home) == home + "/.config/pullkit"@,
{
    reveal_strlit(".config/pullkit/config.yaml");
    reveal_strlit(".config/pullkit");
    reveal_strlit("/.config/pullkit/config.yaml");
    reveal_strlit("/.config/pullkit");
    assert(seq!['/'] + ".config/pullkit/config.yaml"@ =~= "/.config/pullkit/config.yaml"@);
    assert(seq!['/'] + ".config/pullkit"@ =~= "/.config/pullkit"@);
    paths::unix_paths_are_put_behind(home, ".config/pullkit/config.yaml"@);
    paths::unix_paths_are_put_behind(home, ".config/pullkit"@);
    assert(home + seq!['/'] + ".config/pullkit/config.yaml"@ =~= home
        + "/.config/pullkit/config.yaml"@);
    assert(home + seq!['/'] + ".config/pullkit"@ =~= home + "/.config/pullkit"@);
}

/// Two repositories stand in one directory just when their paths are the same
/// one, or both were resolved and to the same path; so one of them never stands
/// in the directory of the other without the other standing in its. On Unix that
/// is a matter of the names along the paths, not of how the one text begins.
pub proof fn one_directory_is_one_path(
    style: PathStyle,
    repos: Seq<RepoConfigView>,
    resolved: Seq<Option<Seq<char>>>,
    i: int,
    j: int,
)
    requires
        0 <= i < repos.len(),
        0 <= j < repos.len(),
    ensures
        is_same_directory(style, repos, resolved, i, j) <==> paths::is_same_path(
            style,
            repos[i].path,
            repos[j].path,
        ) || (i < resolved.len() && j < resolved.len() && resolved[i] is Some && resolved[j] is Some
            && paths::is_same_path(style, resolved[i]->0, resolved[j]->0)),
        is_same_directory(style, repos, resolved, i, j) == is_same_directory(
            style,
            repos,
            resolved,
            j,
            i,
        ),
        paths::names(style, repos[i].path) != paths::names(style, repos[j].path) && (i
            < resolved.len() && j < resolved.len() && resolved[i] is Some && resolved[j] is Some
            ==> paths::names(style, resolved[i]->0) != paths::names(style, resolved[j]->0))
            ==> !is_same_directory(style, repos, resolved, i, j),
{
    if i < resolved.len() && j < resolved.len() && resolved[i] is Some && resolved[j] is Some {
        paths::same_paths_are_alike(style, resolved[i]->0, resolved[j]->0, resolved[i]->0);
    }
    paths::same_paths_are_alike(style, repos[i].path, repos[j].path, repos[i].path);
}

proof fn lemma_first_fault(
    style: PathStyle,
    repos: Seq<RepoConfigView>,
    resolved: Seq<Option<Seq<char>>>,
    i: int,
    from: int,
)
    requires
        0 <= from <= i < repos.len(),
        forall|k: int| from <= k < i ==> #[trigger] repo_fault(style, repos, resolved, k) is None,
        repo_fault(style, repos, resolved, i) is Some,
    ensures
        repos_fault(style, repos, resolved, from) == repo_fault(style, repos, resolved, i),
    decreases i - from,
{
    if from < i {
        lemma_first_fault(style, repos, resolved, i, from + 1);
    }
}

proof fn lemma_first_place(
    style: PathStyle,
    repos: Seq<RepoConfigView>,
    resolved: Seq<Option<Seq<char>>>,
    i: int,
    j: int,
    from: int,
)
    requires
        0 <= from <= j < i,
        forall|k: int| from <= k < j ==> !#[trigger] is_same_directory(style, repos, resolved, k, i),
        is_same_directory(style, repos, resolved, j, i),
    ensures
        first_in_directory(style, repos, resolved, i, from) == Some(j),
    decreases j - from,
{
    if from < j {
        lemma_first_place(style, repos, resolved, i, j, from + 1);
    }
}

/// A concurrency from one to ten is accepted, and no other; that is looked at
/// before the repositories are.
pub proof fn a_concurrency_is_from_one_to_ten(
    style: PathStyle,
    config: ConfigView,
    resolved: Seq<Option<Seq<char>>>,
)
    ensures
        config_fault(style, config, resolved) == Some(
            ConfigFault::ConcurrencyOutOfRange { given: config.concurrency },
        ) <==> config.concurrency == 0 || config.concurrency > 10,
        DEFAULT_CONCURRENCY == 4,
{
    if 1 <= config.concurrency <= 10 {
        lemma_repos_have_their_own_faults(style, config.repos, resolved, 0);
    }
}

proof fn lemma_repos_have_their_own_faults(
    style: PathStyle,
    repos: Seq<RepoConfigView>,
    resolved: Seq<Option<Seq<char>>>,
    i: int,
)
    ensures
        repos_fault(style, repos, resolved, i) matches Some(fault) ==> !(fault
            is ConcurrencyOutOfRange),
    decreases repos.len() - i,
{
    if i < repos.len() {
        lemma_repos_have_their_own_faults(style, repos, resolved, i + 1);
    }
}

/// The first faulty repository is named, with what is wrong with it: a name with
/// nothing but white space first, then an empty path, then a name that one before
/// it has, then a directory that one before it stands in.
pub proof fn the_first_faulty_repository_is_named(
    style: PathStyle,
    config: ConfigView,
    resolved: Seq<Option<Seq<char>>>,
    i: int,
)
    requires
        1 <= config.concurrency <= 10,
        0 <= i < config.repos.len(),
        is_sound(style, ConfigView { repos: config.repos.take(i), ..config }, resolved),
    ensures
        ({
            let repos = config.repos;
            let fault = config_fault(style, config, resolved);
            let taken = exists|j: int| 0 <= j < i && #[trigger] repos[j].name == repos[i].name;
            &&& text::is_blank(repos[i].name) ==> fault == Some(
                ConfigFault::EmptyName { position: (i + 1) as nat },
            )
            &&& !text::is_blank(repos[i].name) && repos[i].path.len() == 0 ==> fault == Some(
                ConfigFault::EmptyPath { name: repos[i].name },
            )
            &&& !text::is_blank(repos[i].name) && repos[i].path.len() > 0 && taken ==> fault
                == Some(ConfigFault::DuplicateName { name: repos[i].name })
            &&& forall|j: int|
                0 <= j < i && !text::is_blank(repos[i].name) && repos[i].path.len() > 0 && !taken
                    && #[trigger] is_same_directory(style, repos, resolved, j, i) && (forall|k: int|
                    0 <= k < j ==> !#[trigger] is_same_directory(style, repos, resolved, k, i))
                    ==> fault == Some(
                    ConfigFault::SameDirectory { other: repos[j].name, name: repos[i].name },
                )
        }),
{
    let repos = config.repos;
    let before = repos.take(i);
    assert forall|k: int| 0 <= k < i implies #[trigger] repo_fault(style, repos, resolved, k)
        is None by {
        assert(before[k] == repos[k]);
        lemma_first_in_directory(style, repos, resolved, k, 0);
        assert forall|j: int| 0 <= j < k implies !#[trigger] is_same_directory(
            style,
            repos,
            resolved,
            j,
            k,
        ) by {
            assert(before[j] == repos[j]);
            assert(!is_same_directory(style, before, resolved, j, k));
        }
        assert forall|j: int| 0 <= j < k implies #[trigger] repos[j].name != repos[k].name by {
            assert(before[j] == repos[j]);
        }
    }
    if repo_fault(style, repos, resolved, i) is Some {
        lemma_first_fault(style, repos, resolved, i, 0);
    }
    assert forall|j: int|
        0 <= j < i && !text::is_blank(repos[i].name) && repos[i].path.len() > 0 && !(exists|j: int|
            0 <= j < i && #[trigger] repos[j].name == repos[i].name) && #[trigger] is_same_directory(
            style,
            repos,
            resolved,
            j,
            i,
        ) && (forall|k: int|
            0 <= k < j ==> !#[trigger] is_same_directory(style, repos, resolved, k, i)) implies config_fault(
        style,
        config,
        resolved,
    ) == Some(ConfigFault::SameDirectory { other: repos[j].name, name: repos[i].name }) by {
        lemma_first_place(style, repos, resolved, i, j, 0);
        lemma_first_fault(style, repos, resolved, i, 0);
    }
}

/// Expanding the paths of a configuration changes nothing but paths that begin
/// with `~`.
pub proof fn only_tildes_are_expanded(style: PathStyle, config: ConfigView, home: Seq<char>, i: int)
    requires
        0 <= i < config.repos.len(),
    ensures
        expanded_config(style, config, home).concurrency == config.concurrency,
        expanded_config(style, config, home).repos.len() == config.repos.len(),
        expanded_config(style, config, home).repos[i].name == config.repos[i].name,
        expanded_config(style, config, home).repos[i].build_command
            == config.repos[i].build_command,
        expanded_config(style, config, home).repos[i].path == paths::expanded(
            style,
            config.repos[i].path,
            home,
        ),
        paths::is_under_home(style, config.repos[i].path) ==> needs_home(style, config),
        needs_home(style, config) ==> exists|k: int|
            0 <= k < config.repos.len() && paths::is_under_home(
                style,
                #[trigger] config.repos[k].path,
            ),
{
}

/// How a configuration is loaded: its file is read, its paths are expanded where
/// one needs it, and what was resolved is accepted just when nothing is wrong with
/// it. What stands in the way is told.
pub proof fn configurations_are_loaded_in_order(
    style: PathStyle,
    path: Seq<char>,
    home: Option<Seq<char>>,
    stage: LoadStage,
)
    ensures
        match stage {
            LoadStage::Start => load_step(style, path, home, stage) == (LoadStepView::Read { path }),
            LoadStage::ReadFailed { cause } => load_step(style, path, home, stage) == (
            LoadStepView::Failed { fault: ConfigFault::Unreadable { path, cause: cause@ } }),
            LoadStage::ParseFailed { cause } => load_step(style, path, home, stage) == (
            LoadStepView::Failed { fault: ConfigFault::InvalidYaml { path, cause: cause@ } }),
            LoadStage::Parsed { config } => if (forall|i: int|
                0 <= i < config@.repos.len() ==> !paths::is_under_home(
                    style,
                    #[trigger] config@.repos[i].path,
                )) {
                load_step(style, path, home, stage) == (LoadStepView::Resolve { config: config@ })
            } else {
                match home {
                    Some(home) => load_step(style, path, Some(home), stage) == (
                    LoadStepView::Resolve { config: expanded_config(style, config@, home) }),
                    None => load_step(style, path, home, stage) == (LoadStepView::Failed {
                        fault: ConfigFault::HomeNotSet,
                    }),
                }
            },
            LoadStage::Resolved { config, resolved } => match config_fault(
                style,
                config@,
                resolved_views(resolved@),
            ) {
                Some(fault) => load_step(style, path, home, stage) == (LoadStepView::Failed {
                    fault,
                }),
                None => load_step(style, path, home, stage) == (LoadStepView::Loaded {
                    config: config@,
                }),
            },
        },
{
}

/// What is said of each fault names what it is about.
pub proof fn faults_are_told_with_their_names(
    a: Seq<char>,
    b: Seq<char>,
    n: nat,
)
    ensures
        ConfigFault::HomeNotSet.spoken() == "HOME is not set"@,
        (ConfigFault::DirectoryNotCreated { path: a, cause: b }).spoken()
            == "could not create config directory at "@ + a + ": "@ + b,
        (ConfigFault::SampleNotCreated { path: a, cause: b }).spoken()
            == "could not create sample config at "@ + a + ": "@ + b,
        (ConfigFault::Unreadable { path: a, cause: b }).spoken() == "could not read config at "@ + a
            + ": "@ + b,
        (ConfigFault::InvalidYaml { path: a, cause: b }).spoken() == "invalid YAML in "@ + a
            + ": "@ + b,
        (ConfigFault::ConcurrencyOutOfRange { given: n }).spoken()
            == "concurrency must be between 1 and 10, not "@ + text::decimal(n),
        (ConfigFault::EmptyName { position: n }).spoken() == "repo "@ + text::decimal(n)
            + " has an empty name"@,
        (ConfigFault::EmptyPath { name: a }).spoken() == "repo '"@ + a + "' has an empty path"@,
        (ConfigFault::DuplicateName { name: a }).spoken() == "duplicate repo name '"@ + a + "'"@,
        (ConfigFault::SameDirectory { other: a, name: b }).spoken() == "repos '"@ + a + "' and '"@
            + b + "' point at the same directory"@,
{
}

/// A number of repositories to work on at once is accepted from one to ten.
pub proof fn from_one_to_ten_may_be_asked_for(concurrency: nat)
    ensures
        concurrency_fault(concurrency) is None <==> 1 <= concurrency <= 10,
        concurrency_fault(concurrency) matches Some(fault) ==> fault == (
        ConfigFault::ConcurrencyOutOfRange { given: concurrency }),
{
}

/// The home directory has to be known where the configuration is looked for, and
/// where a path begins with `~`; a configuration without such a path stays as it
/// is.
pub proof fn the_home_directory_has_to_be_known(
    style: PathStyle,
    config: ConfigView,
    home: Seq<char>,
    init: InitStage,
    load: LoadStage,
)
    ensures
        config_place(style, None) == Err::<Seq<char>, ConfigFault>(ConfigFault::HomeNotSet),
        config_place(style, Some(home)) == Ok::<Seq<char>, ConfigFault>(config_file(style, home)),
        init_result(style, None, init) == (InitStepView::Failed { fault: ConfigFault::HomeNotSet }),
        init_result(style, Some(home), init) == init_step(style, home, init),
        load_result(style, None, load) == (LoadStepView::Failed { fault: ConfigFault::HomeNotSet }),
        load_result(style, Some(home), load) == load_step(
            style,
            config_file(style, home),
            Some(home),
            load,
        ),
        (forall|i: int|
            0 <= i < config.repos.len() ==> !paths::is_under_home(
                style,
                #[trigger] config.repos[i].path,
            )) ==> expansion(style, config, None) == Ok::<ConfigView, ConfigFault>(config)
            && expansion(style, config, Some(home)) == Ok::<ConfigView, ConfigFault>(config),
        (exists|i: int|
            0 <= i < config.repos.len() && paths::is_under_home(
                style,
                #[trigger] config.repos[i].path,
            )) ==> expansion(style, config, None) == Err::<ConfigView, ConfigFault>(
            ConfigFault::HomeNotSet,
        ) && expansion(style, config, Some(home)) == Ok::<ConfigView, ConfigFault>(
            expanded_config(style, config, home),
        ),
{
}

/// A configuration is seen whole, with its repositories one by one.
pub proof fn configurations_are_seen_whole(config: Config, i: int)
    requires
        0 <= i < config.repos@.len(),
    ensures
        config@.concurrency == config.concurrency,
        config@.repos.len() == config.repos@.len(),
        config@.repos[i].name == config.repos@[i].name@,
        config@.repos[i].path == config.repos@[i].path@,
        match config.repos@[i].build_command {
            Some(command) => config@.repos[i].build_command == Some(command@),
            None => config@.repos[i].build_command is None,
        },
{
}

} // verus!
