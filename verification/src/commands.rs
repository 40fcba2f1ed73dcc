//! The commands and the decisions they make between their outside steps.
//!
//! A command runs as an exchange: [`select_command`] starts it and names
//! the first piece of outside work ([`Action`]); the caller performs it and
//! hands back what happened ([`Event`]) to [`CommandRun::advance`], until an
//! [`Action::Finish`] carries the command's answer.
use crate::config::{consistent, validation_error, Config, ConfigView, StepView};
use crate::config_dir::{config_file_path_with, config_path_of, path_is_absolute, str_opt, ConfigEnv, ConfigEnvView, ConfigPathSource};
use crate::errors::{error_of, Error, ErrorView};
use crate::format::{green_string, painted, Hue};
use crate::git::{branch_of, parse_branch_output, text_result};
use crate::resolve::{
    artifact_dir_of, artifact_dir_path, model_index, prompt_index, resolve_model, resolve_prompt,
    resolve_script, resolve_step, script_index, step_index, unknown,
};
use crate::search::{artifact_of, current_step, no_match, SearchStep, StepSearch};
use crate::text::{cat, debug_quoted, debug_str, owned};
use vstd::prelude::*;

verus! {

/// The command line: the output mode and the command to run.
pub struct Cli {
    /// Print the answer as a JSON envelope.
    pub json: bool,
    pub command: Commands,
}

/// The commands.
pub enum Commands {
    /// Create the config file from the template; refuse if it exists.
    Init { config: Option<String> },
    /// Print the current git branch.
    Branch,
    /// Print the artifact directory path.
    ArtifactDirectory,
    /// Print the current step's name.
    Step { config: Option<String>, step: Option<String> },
    /// Print the current step's model.
    Model { config: Option<String>, step: Option<String> },
    /// Print the current step's thinking budget.
    Thinking { config: Option<String>, step: Option<String> },
    /// Print the current step's prompt.
    Prompt { config: Option<String>, step: Option<String> },
    /// Print the current step's script.
    Script { step_name: Option<String>, config: Option<String> },
}

/// What `git branch --show-current` reported, run in the working directory.
pub struct GitReport {
    /// The working directory, as displayed.
    pub cwd: String,
    /// Whether git exited successfully.
    pub exit_ok: bool,
    pub stdout: String,
    pub stderr: String,
}

/// Why creating the config file failed.
pub struct CreateFailure {
    /// The path already existed.
    pub already_exists: bool,
    /// The I/O error's description.
    pub message: String,
}

/// Outside work the command needs next.
pub enum Action {
    /// Read the config file at `path` and parse it; answer with
    /// [`Event::ConfigLoaded`].
    LoadConfig { path: String, source: ConfigPathSource },
    /// Run `git branch --show-current` in the working directory; answer with
    /// [`Event::GitRan`].
    RunGit,
    /// Check whether a file exists; answer with [`Event::ArtifactChecked`].
    CheckArtifact(String),
    /// Create the config file from the template (parents included, never
    /// overwriting); answer with [`Event::ConfigCreated`].
    CreateConfig(String),
    /// The command's answer.
    Finish(Result<String, Error>),
}

/// What the outside work produced.
pub enum Event {
    ConfigLoaded(Result<Config, Error>),
    GitRan(Result<GitReport, Error>),
    ArtifactChecked(Result<bool, Error>),
    ConfigCreated(Result<(), CreateFailure>),
}

/// Where a running command stands.
pub enum Stage {
    /// Waiting for the config file to be created at `path`.
    Create { path: String },
    /// Waiting for git, to print the branch.
    Branch,
    /// Waiting for git, to print the artifact directory.
    ArtifactDirectory,
    /// Waiting for the config file.
    Config,
    /// Waiting for git, to find the artifact directory.
    Locate,
    /// Waiting for a trigger artifact check.
    Search,
    /// Waiting for git, to write the prompt's frontmatter.
    Frontmatter { name: String, content: String },
    /// Finished.
    Done,
}

/// A running command.
pub struct CommandRun {
    pub command: Commands,
    pub stage: Stage,
    /// The loaded configuration (meaningful once loaded).
    pub config: Config,
    /// The artifact directory (meaningful once located).
    pub dir: String,
    /// The step search (meaningful while searching).
    pub search: StepSearch,
}

/// A git report as plain values.
pub struct GitView {
    pub cwd: Seq<char>,
    pub exit_ok: bool,
    pub stdout: Seq<char>,
    pub stderr: Seq<char>,
}

/// A creation failure as plain values.
pub struct CreateFailureView {
    pub already_exists: bool,
    pub message: Seq<char>,
}

impl View for GitReport {
    type V = GitView;

    open spec fn view(&self) -> GitView {
        GitView {
            cwd: self.cwd@,
            exit_ok: self.exit_ok,
            stdout: self.stdout@,
            stderr: self.stderr@,
        }
    }
}

impl View for CreateFailure {
    type V = CreateFailureView;

    open spec fn view(&self) -> CreateFailureView {
        CreateFailureView { already_exists: self.already_exists, message: self.message@ }
    }
}

/// What the outside world answers: the loaded config file (before
/// validation), git's report, which files exist, and how creating the
/// config file went.
pub struct World {
    pub config: Result<ConfigView, ErrorView>,
    pub git: Result<GitView, ErrorView>,
    pub present: spec_fn(Seq<char>) -> bool,
    pub created: Result<(), CreateFailureView>,
}

/// A command's answer as plain values. `Created` is the success message
/// of `init` for the path, which is colored green when color is enabled.
pub enum Reply {
    Text(Result<Seq<char>, ErrorView>),
    Created(Seq<char>),
}

/// The success message of `init`.
pub open spec fn created_message(path: Seq<char>) -> Seq<char> {
    "✓ Created "@ + path
}

/// `r` is the answer `reply` describes.
pub open spec fn answers(reply: Reply, r: Result<String, Error>) -> bool {
    match reply {
        Reply::Text(t) => text_result(r) == t,
        Reply::Created(path) => r matches Ok(s) && painted(s@, created_message(path), Hue::Green),
    }
}

/// The view of a loaded config.
pub open spec fn config_result(x: Result<Config, Error>) -> Result<ConfigView, ErrorView> {
    match x {
        Ok(c) => Ok(c@),
        Err(e) => Err(e@),
    }
}

/// The view of a git run.
pub open spec fn git_result(x: Result<GitReport, Error>) -> Result<GitView, ErrorView> {
    match x {
        Ok(g) => Ok(g@),
        Err(e) => Err(e@),
    }
}

/// The view of a creation.
pub open spec fn create_result(x: Result<(), CreateFailure>) -> Result<(), CreateFailureView> {
    match x {
        Ok(()) => Ok(()),
        Err(f) => Err(f@),
    }
}

/// The view of an optional string.
pub open spec fn opt_text(o: Option<String>) -> Option<Seq<char>> {
    match o {
        Some(s) => Some(s@),
        None => None,
    }
}

/// The `--config` argument of a command.
pub open spec fn config_arg(cmd: Commands) -> Option<Seq<char>> {
    match cmd {
        Commands::Init { config } => opt_text(config),
        Commands::Step { config, .. } => opt_text(config),
        Commands::Model { config, .. } => opt_text(config),
        Commands::Thinking { config, .. } => opt_text(config),
        Commands::Prompt { config, .. } => opt_text(config),
        Commands::Script { config, .. } => opt_text(config),
        _ => None,
    }
}

/// The step named on the command line, overriding derivation.
pub open spec fn step_arg(cmd: Commands) -> Option<Seq<char>> {
    match cmd {
        Commands::Step { step, .. } => opt_text(step),
        Commands::Model { step, .. } => opt_text(step),
        Commands::Thinking { step, .. } => opt_text(step),
        Commands::Prompt { step, .. } => opt_text(step),
        Commands::Script { step_name, .. } => opt_text(step_name),
        _ => None,
    }
}

/// The commands that read the config file and act on a step.
pub open spec fn uses_config(cmd: Commands) -> bool {
    match cmd {
        Commands::Step { .. } | Commands::Model { .. } | Commands::Thinking { .. }
        | Commands::Prompt { .. } | Commands::Script { .. } => true,
        _ => false,
    }
}

/// The answer of `init` once the config path is `path`.
pub open spec fn created_reply(path: Seq<char>, created: Result<(), CreateFailureView>) -> Reply {
    match created {
        Ok(()) => Reply::Created(path),
        Err(f) => if f.already_exists {
            Reply::Text(Err(error_of("config-exists"@, path + " already exists; not overwriting"@)))
        } else {
            Reply::Text(Err(error_of("io"@, f.message)))
        },
    }
}

/// The answer of `branch`.
pub open spec fn branch_reply(git: Result<GitView, ErrorView>) -> Reply {
    match git {
        Err(e) => Reply::Text(Err(e)),
        Ok(g) => Reply::Text(branch_of(g.exit_ok, g.stdout, g.stderr)),
    }
}

/// The artifact directory of a git report.
pub open spec fn located(git: Result<GitView, ErrorView>) -> Result<Seq<char>, ErrorView> {
    match git {
        Err(e) => Err(e),
        Ok(g) => match branch_of(g.exit_ok, g.stdout, g.stderr) {
            Err(e) => Err(e),
            Ok(b) => Ok(artifact_dir_of(g.cwd, b)),
        },
    }
}

/// The frontmatter block above a prompt.
pub open spec fn frontmatter(step: Seq<char>, branch: Seq<char>, dir: Seq<char>) -> Seq<char> {
    "## Important variables\nUse these everywhere you see $<variable>\nstep = "@ + step
        + "\nbranch = "@ + branch + "\nartifact_directory = "@ + dir + "\n\n"@
}

/// The answer of `prompt` for the prompt named `name`.
pub open spec fn prompt_reply(c: ConfigView, name: Seq<char>, git: Result<GitView, ErrorView>) -> Reply {
    match prompt_index(c, name) {
        None => Reply::Text(Err(unknown("prompt"@, name))),
        Some(k) => frontmatter_reply(name, c.prompts[k].content, c.show_frontmatter, git),
    }
}

/// The prompt text, with the frontmatter block above it when shown.
pub open spec fn frontmatter_reply(
    name: Seq<char>,
    content: Seq<char>,
    shown: bool,
    git: Result<GitView, ErrorView>,
) -> Reply {
    if !shown {
        Reply::Text(Ok(content))
    } else {
        match git {
            Err(e) => Reply::Text(Err(e)),
            Ok(g) => match branch_of(g.exit_ok, g.stdout, g.stderr) {
                Err(e) => Reply::Text(Err(e)),
                Ok(b) => Reply::Text(Ok(frontmatter(name, b, artifact_dir_of(g.cwd, b)) + content)),
            },
        }
    }
}

/// The message for a step without a script.
pub open spec fn no_script(name: Seq<char>) -> ErrorView {
    error_of("script"@, "step "@ + debug_str(name) + " has no script configured"@)
}

/// The answer of a config command once its step is `s`.
pub open spec fn reply_for(cmd: Commands, c: ConfigView, s: StepView, git: Result<GitView, ErrorView>) -> Reply {
    match cmd {
        Commands::Step { .. } => Reply::Text(Ok(s.name)),
        Commands::Model { .. } => match model_index(c, s.model) {
            Some(m) => Reply::Text(Ok(c.models[m].model)),
            None => Reply::Text(Err(unknown("model"@, s.model))),
        },
        Commands::Thinking { .. } => match model_index(c, s.model) {
            Some(m) => Reply::Text(Ok(c.models[m].thinking)),
            None => Reply::Text(Err(unknown("model"@, s.model))),
        },
        Commands::Script { .. } => match s.script {
            None => Reply::Text(Err(no_script(s.name))),
            Some(sn) => match script_index(c, sn) {
                Some(k) => Reply::Text(Ok(c.scripts[k].content)),
                None => Reply::Text(Err(unknown("script"@, sn))),
            },
        },
        _ => prompt_reply(c, s.name, git),
    }
}

/// The answer of a config command once its step is selected (or not).
pub open spec fn reply_selected(cmd: Commands, c: ConfigView, sel: Result<int, ErrorView>, w: World) -> Reply {
    match sel {
        Err(e) => Reply::Text(Err(e)),
        Ok(i) => reply_for(cmd, c, c.steps[i], w.git),
    }
}

/// The step the artifacts select under `dir`.
pub open spec fn found_in(c: ConfigView, dir: Seq<char>, present: spec_fn(Seq<char>) -> bool) -> Result<int, ErrorView> {
    match current_step(c.steps, dir, present) {
        Some(i) => Ok(i),
        None => Err(no_match(dir)),
    }
}

/// The step derived from git and the trigger artifacts.
pub open spec fn derived(c: ConfigView, w: World) -> Result<int, ErrorView> {
    match located(w.git) {
        Err(e) => Err(e),
        Ok(dir) => found_in(c, dir, w.present),
    }
}

/// The step named `name`.
pub open spec fn named(c: ConfigView, name: Seq<char>) -> Result<int, ErrorView> {
    match step_index(c, name) {
        Some(i) => Ok(i),
        None => Err(unknown("step"@, name)),
    }
}

/// The answer of a config command once the config file was loaded.
pub open spec fn reply_loaded(cmd: Commands, w: World) -> Reply {
    match w.config {
        Err(e) => Reply::Text(Err(e)),
        Ok(c) => match validation_error(c) {
            Some(e) => Reply::Text(Err(e)),
            None => match step_arg(cmd) {
                Some(n) => reply_selected(cmd, c, named(c, n), w),
                None => reply_selected(cmd, c, derived(c, w), w),
            },
        },
    }
}

/// The answer a command gives in world `w`, for the config location that
/// `xdg_absolute` (whether `XDG_CONFIG_HOME` is an absolute path) selects.
pub open spec fn expected(cmd: Commands, env: ConfigEnvView, xdg_absolute: bool, w: World) -> Reply {
    match cmd {
        Commands::Branch => branch_reply(w.git),
        Commands::ArtifactDirectory => Reply::Text(located(w.git)),
        Commands::Init { .. } => match config_path_of(config_arg(cmd), env, xdg_absolute) {
            Err(e) => Reply::Text(Err(e)),
            Ok((p, _)) => created_reply(p, w.created),
        },
        _ => match config_path_of(config_arg(cmd), env, xdg_absolute) {
            Err(e) => Reply::Text(Err(e)),
            Ok(_) => reply_loaded(cmd, w),
        },
    }
}

impl CommandRun {
    /// The answer this run will give in world `w`.
    pub open spec fn reply(&self, w: World) -> Reply {
        match self.stage {
            Stage::Create { path } => created_reply(path@, w.created),
            Stage::Branch => branch_reply(w.git),
            Stage::ArtifactDirectory => Reply::Text(located(w.git)),
            Stage::Config => reply_loaded(self.command, w),
            Stage::Locate => reply_selected(self.command, self.config@, derived(self.config@, w), w),
            Stage::Search => reply_selected(
                self.command,
                self.config@,
                match self.search.outcome(self.config@.steps, self.dir@, w.present) {
                    Some(i) => Ok(i),
                    None => Err(no_match(self.dir@)),
                },
                w,
            ),
            Stage::Frontmatter { name, content } => frontmatter_reply(name@, content@, true, w.git),
            Stage::Done => Reply::Text(Ok(Seq::empty())),
        }
    }

    /// The run is consistent with its stage.
    pub open spec fn inv(&self) -> bool {
        match self.stage {
            Stage::Create { .. } => self.command is Init,
            Stage::Branch => self.command is Branch,
            Stage::ArtifactDirectory => self.command is ArtifactDirectory,
            Stage::Config => uses_config(self.command),
            Stage::Locate => uses_config(self.command) && validation_error(self.config@) is None,
            Stage::Search => {
                &&& uses_config(self.command)
                &&& validation_error(self.config@) is None
                &&& self.search.wf(self.config@.steps.len() as int)
                &&& self.search.pending is Some
            },
            Stage::Frontmatter { .. } => self.command is Prompt,
            Stage::Done => true,
        }
    }

    /// `e` is the kind of event the run waits for, and it says what `w`
    /// says.
    pub open spec fn answered(&self, e: Event, w: World) -> bool {
        match (self.stage, e) {
            (Stage::Create { .. }, Event::ConfigCreated(x)) => create_result(x) == w.created,
            (Stage::Branch, Event::GitRan(x)) => git_result(x) == w.git,
            (Stage::ArtifactDirectory, Event::GitRan(x)) => git_result(x) == w.git,
            (Stage::Locate, Event::GitRan(x)) => git_result(x) == w.git,
            (Stage::Frontmatter { .. }, Event::GitRan(x)) => git_result(x) == w.git,
            (Stage::Config, Event::ConfigLoaded(x)) => config_result(x) == w.config,
            (Stage::Search, Event::ArtifactChecked(x)) => self.search.answered(
                Some(x),
                self.config@.steps,
                self.dir@,
                w.present,
            ),
            _ => false,
        }
    }

    /// `e` is the kind of event the run waits for.
    pub open spec fn awaits(&self, e: Event) -> bool {
        match (self.stage, e) {
            (Stage::Create { .. }, Event::ConfigCreated(_)) => true,
            (Stage::Branch, Event::GitRan(_)) => true,
            (Stage::ArtifactDirectory, Event::GitRan(_)) => true,
            (Stage::Locate, Event::GitRan(_)) => true,
            (Stage::Frontmatter { .. }, Event::GitRan(_)) => true,
            (Stage::Config, Event::ConfigLoaded(_)) => true,
            (Stage::Search, Event::ArtifactChecked(_)) => true,
            _ => false,
        }
    }

    /// The action matches the stage the run is left in.
    pub open spec fn requests(&self, a: Action) -> bool {
        match a {
            Action::Finish(_) => self.stage is Done,
            Action::LoadConfig { .. } => self.stage is Config,
            Action::RunGit => self.stage is Branch || self.stage is ArtifactDirectory
                || self.stage is Locate || self.stage is Frontmatter,
            Action::CheckArtifact(p) => self.stage is Search && (self.search.pending matches Some(
                i,
            ) && p@ == artifact_of(self.dir@, self.config@.steps[i as int])),
            Action::CreateConfig(p) => self.stage matches Stage::Create { path } && path@ == p@,
        }
    }

    /// How many exchanges the run has left at most, once its config is
    /// loaded: none when done; one when it waits for the config file to be
    /// created or for git to print the branch, the artifact directory or
    /// the frontmatter; two more than the step search's measure while it
    /// checks artifacts; and, while it locates the artifact directory, two
    /// more than the longest search of its steps.
    pub open spec fn rank(&self) -> int {
        match self.stage {
            Stage::Done => 0,
            Stage::Create { .. } | Stage::Branch | Stage::ArtifactDirectory | Stage::Frontmatter {
                ..
            } => 1,
            Stage::Search => 2 + self.search.measure(),
            Stage::Locate | Stage::Config => 2 * self.config@.steps.len() as int + 4,
        }
    }

    /// How many exchanges the run has left at most in world `w`: while it
    /// waits for the config file, one more than locating the artifact
    /// directory for the config that `w` holds (or one, when `w` has no
    /// config to give); otherwise its rank.
    pub open spec fn remaining(&self, w: World) -> int {
        match self.stage {
            Stage::Config => match w.config {
                Ok(c) => 2 * c.steps.len() as int + 5,
                Err(_) => 1,
            },
            _ => self.rank(),
        }
    }

    /// The run has just started: it waits for the config file, for its
    /// creation, or for git, or it is already done.
    pub open spec fn fresh(&self) -> bool {
        match self.stage {
            Stage::Config | Stage::Create { .. } | Stage::Branch | Stage::ArtifactDirectory
            | Stage::Done => true,
            _ => false,
        }
    }
}

/// The number of steps of the config file that `w` holds (none when it
/// holds no config).
pub open spec fn config_steps(w: World) -> int {
    match w.config {
        Ok(c) => c.steps.len() as int,
        Err(_) => 0,
    }
}

/// `a` keeps the answer: a finished run answers `reply`, and otherwise the
/// run still gives `reply`.
pub open spec fn keeps(run: CommandRun, a: Action, reply: Reply, w: World) -> bool {
    match a {
        Action::Finish(r) => answers(reply, r),
        _ => run.reply(w) == reply,
    }
}

/// `e` delivers a config whose prompts are shown with their frontmatter.
pub open spec fn delivers_frontmatter(e: Event) -> bool {
    e matches Event::ConfigLoaded(Ok(c)) && c.show_frontmatter
}

/// One exchange of a run: the new run keeps its invariant and command,
/// names work its stage waits for, and keeps the answer for every world
/// that `e` describes.
pub open spec fn advanced(old: CommandRun, new: CommandRun, e: Event, a: Action) -> bool {
    &&& new.inv()
    &&& new.requests(a)
    &&& new.command == old.command
    &&& forall|w: World| #[trigger] old.answered(e, w) ==> keeps(new, a, old.reply(w), w)
}

impl Commands {
    /// A copy of this command.
    pub fn duplicate(&self) -> (r: Commands)
        ensures
            r == *self,
    {
        match self {
            Commands::Init { config } => Commands::Init { config: copy_opt(config) },
            Commands::Branch => Commands::Branch,
            Commands::ArtifactDirectory => Commands::ArtifactDirectory,
            Commands::Step { config, step } => Commands::Step {
                config: copy_opt(config),
                step: copy_opt(step),
            },
            Commands::Model { config, step } => Commands::Model {
                config: copy_opt(config),
                step: copy_opt(step),
            },
            Commands::Thinking { config, step } => Commands::Thinking {
                config: copy_opt(config),
                step: copy_opt(step),
            },
            Commands::Prompt { config, step } => Commands::Prompt {
                config: copy_opt(config),
                step: copy_opt(step),
            },
            Commands::Script { step_name, config } => Commands::Script {
                step_name: copy_opt(step_name),
                config: copy_opt(config),
            },
        }
    }
}

/// A copy of an optional string.
fn copy_opt(o: &Option<String>) -> (r: Option<String>)
    ensures
        r == *o,
{
    match o {
        Some(s) => Some(s.clone()),
        None => None,
    }
}

/// The `--config` argument of a command.
fn config_override(cmd: &Commands) -> (r: Option<&str>)
    ensures
        str_opt(r) == config_arg(*cmd),
{
    let c = match cmd {
        Commands::Init { config } => config,
        Commands::Step { config, .. } => config,
        Commands::Model { config, .. } => config,
        Commands::Thinking { config, .. } => config,
        Commands::Prompt { config, .. } => config,
        Commands::Script { config, .. } => config,
        _ => {
            return None;
        },
    };
    match c {
        Some(p) => Some(p.as_str()),
        None => None,
    }
}

/// The step named on the command line.
fn step_override(cmd: &Commands) -> (r: Option<&str>)
    ensures
        str_opt(r) == step_arg(*cmd),
{
    let c = match cmd {
        Commands::Step { step, .. } => step,
        Commands::Model { step, .. } => step,
        Commands::Thinking { step, .. } => step,
        Commands::Prompt { step, .. } => step,
        Commands::Script { step_name, .. } => step_name,
        _ => {
            return None;
        },
    };
    match c {
        Some(p) => Some(p.as_str()),
        None => None,
    }
}

/// The frontmatter block above a prompt, followed by the prompt.
fn with_frontmatter(name: &str, branch: &str, dir: &str, content: &str) -> (r: String)
    ensures
        r@ == frontmatter(name@, branch@, dir@) + content@,
{
    let mut r = cat("## Important variables\nUse these everywhere you see $<variable>\nstep = ", name);
    r.append("\nbranch = ");
    r.append(branch);
    r.append("\nartifact_directory = ");
    r.append(dir);
    r.append("\n\n");
    r.append(content);
    assert(r@ =~= frontmatter(name@, branch@, dir@) + content@);
    r
}

/// The success message of `init`, colored green when color is enabled.
pub fn created_text(path: &str) -> (r: String)
    ensures
        painted(r@, created_message(path@), Hue::Green),
{
    let m = cat("✓ Created ", path);
    green_string(m.as_str())
}

/// The error for reading the config file at `path` (resolved as `source`)
/// failing with the I/O error described by `io_message`.
pub fn read_failure(path: &str, source: ConfigPathSource, io_message: &str) -> (r: Error)
    ensures
        r@ == error_of(
            "io"@,
            "could not read config file at "@ + path@ + " ("@ + crate::config_dir::source_phrase(
                source,
            ) + "): "@ + io_message@,
        ),
{
    let mut m = cat("could not read config file at ", path);
    m.append(" (");
    m.append(source.to_string().as_str());
    m.append("): ");
    m.append(io_message);
    assert(m@ =~= "could not read config file at "@ + path@ + " ("@
        + crate::config_dir::source_phrase(source) + "): "@ + io_message@);
    Error { source: owned("io"), message: m }
}

/// A run that has finished.
fn finished(command: Commands) -> (r: CommandRun)
    ensures
        r.command == command,
        r.stage is Done,
{
    CommandRun {
        command,
        stage: Stage::Done,
        config: Config::default(),
        dir: String::new(),
        search: StepSearch { next: 0, default: None, pending: None },
    }
}

impl CommandRun {
    /// Finish with `r`.
    fn finish(&mut self, r: Result<String, Error>) -> (a: Action)
        ensures
            final(self).stage is Done,
            final(self).command == old(self).command,
            final(self).config == old(self).config,
            final(self).dir == old(self).dir,
            a == Action::Finish(r),
    {
        self.stage = Stage::Done;
        Action::Finish(r)
    }

    /// Answer a config command now that its step is `step`.
    fn finish_step(&mut self, step: crate::config::Step) -> (a: Action)
        requires
            uses_config(old(self).command),
        ensures
            final(self).inv(),
            final(self).requests(a),
            final(self).command == old(self).command,
            final(self).dir == old(self).dir,
            final(self).config == old(self).config,
            final(self).stage is Done || final(self).stage is Frontmatter,
            forall|w: World|
                keeps(
                    *final(self),
                    a,
                    #[trigger] reply_for(old(self).command, old(self).config@, step@, w.git),
                    w,
                ),
            (old(self).command is Prompt && old(self).config.show_frontmatter) || a is Finish,
    {
        match &self.command {
            Commands::Step { .. } => self.finish(Ok(step.name)),
            Commands::Model { .. } => {
                let r = match resolve_model(&self.config, step.model.as_str()) {
                    Ok(m) => Ok(m.model),
                    Err(e) => Err(e),
                };
                self.finish(r)
            },
            Commands::Thinking { .. } => {
                let r = match resolve_model(&self.config, step.model.as_str()) {
                    Ok(m) => Ok(m.thinking),
                    Err(e) => Err(e),
                };
                self.finish(r)
            },
            Commands::Script { .. } => {
                let r = match &step.script {
                    None => {
                        let mut m = cat("step ", debug_quoted(step.name.as_str()).as_str());
                        m.append(" has no script configured");
                        Err(Error { source: owned("script"), message: m })
                    },
                    Some(sn) => resolve_script(&self.config, sn.as_str()),
                };
                self.finish(r)
            },
            _ => {
                match resolve_prompt(&self.config, step.name.as_str()) {
                    Err(e) => self.finish(Err(e)),
                    Ok(content) => {
                        if self.config.show_frontmatter {
                            self.stage = Stage::Frontmatter { name: step.name, content };
                            Action::RunGit
                        } else {
                            self.finish(Ok(content))
                        }
                    },
                }
            },
        }
    }
}

impl CommandRun {
    /// Continue after the step search took a step.
    fn after_search(&mut self, step: SearchStep) -> (a: Action)
        requires
            uses_config(old(self).command),
            validation_error(old(self).config@) is None,
            old(self).search.wf(old(self).config@.steps.len() as int),
            step matches SearchStep::Check(p) ==> (old(self).search.pending matches Some(i) && p@
                == artifact_of(old(self).dir@, old(self).config@.steps[i as int])),
        ensures
            final(self).inv(),
            final(self).requests(a),
            final(self).command == old(self).command,
            step matches SearchStep::Done(Err(e)) ==> a == Action::Finish(Err(e)),
            step is Check ==> final(self).stage is Search && final(self).search == old(self).search && final(
                self).config == old(self).config,
            final(self).dir == old(self).dir,
            final(self).config == old(self).config,
            final(self).stage is Search || final(self).stage is Frontmatter || final(self).stage is Done,
            step is Done ==> final(self).stage is Frontmatter || final(self).stage is Done,
            step matches SearchStep::Done(Ok(s)) ==> forall|w: World|
                keeps(
                    *final(self),
                    a,
                    #[trigger] reply_for(old(self).command, old(self).config@, s@, w.git),
                    w,
                ),
    {
        match step {
            SearchStep::Check(p) => {
                self.stage = Stage::Search;
                Action::CheckArtifact(p)
            },
            SearchStep::Done(Ok(s)) => self.finish_step(s),
            SearchStep::Done(Err(e)) => self.finish(Err(e)),
        }
    }
}

impl CommandRun {
    /// `init`: the config file was created, or not.
    fn on_created(&mut self, x: Result<(), CreateFailure>) -> (a: Action)
        requires
            old(self).inv(),
            old(self).stage is Create,
        ensures
            advanced(*old(self), *final(self), Event::ConfigCreated(x), a),
            a is Finish,
            !(final(self).stage is Config),
            a is Finish || final(self).rank() < old(self).rank(),
    {
        let path = match &self.stage {
            Stage::Create { path } => path.clone(),
            _ => String::new(),
        };
        let r = match x {
            Ok(()) => Ok(created_text(path.as_str())),
            Err(f) => {
                if f.already_exists {
                    let m = cat(path.as_str(), " already exists; not overwriting");
                    Err(Error { source: owned("config-exists"), message: m })
                } else {
                    Err(Error { source: owned("io"), message: f.message })
                }
            },
        };
        self.finish(r)
    }

    /// `branch`: git ran.
    fn on_branch(&mut self, x: Result<GitReport, Error>) -> (a: Action)
        requires
            old(self).inv(),
            old(self).stage is Branch,
        ensures
            advanced(*old(self), *final(self), Event::GitRan(x), a),
            !(final(self).stage is Config),
            a is Finish || final(self).rank() < old(self).rank(),
            final(self).stage is Done,
            a matches Action::Finish(r) && Reply::Text(text_result(r)) == branch_reply(git_result(x)),
    {
        let r = match x {
            Err(e) => Err(e),
            Ok(g) => parse_branch_output(g.exit_ok, g.stdout.as_str(), g.stderr.as_str()),
        };
        self.finish(r)
    }

    /// `artifact_directory`: git ran.
    fn on_artifact_directory(&mut self, x: Result<GitReport, Error>) -> (a: Action)
        requires
            old(self).inv(),
            old(self).stage is ArtifactDirectory,
        ensures
            advanced(*old(self), *final(self), Event::GitRan(x), a),
            !(final(self).stage is Config),
            a is Finish || final(self).rank() < old(self).rank(),
            final(self).stage is Done,
            a matches Action::Finish(r) && text_result(r) == located(git_result(x)),
    {
        let r = match x {
            Err(e) => Err(e),
            Ok(g) => match parse_branch_output(g.exit_ok, g.stdout.as_str(), g.stderr.as_str()) {
                Err(e) => Err(e),
                Ok(b) => Ok(artifact_dir_path(g.cwd.as_str(), b.as_str())),
            },
        };
        self.finish(r)
    }

    /// A config command: the config file was loaded, or not.
    fn on_config(&mut self, x: Result<Config, Error>) -> (a: Action)
        requires
            old(self).inv(),
            old(self).stage is Config,
        ensures
            advanced(*old(self), *final(self), Event::ConfigLoaded(x), a),
            !(final(self).stage is Config),
            x is Err ==> a is Finish,
            x matches Ok(c) && validation_error(c@) is Some ==> a is Finish,
            x matches Ok(c) ==> a is Finish || final(self).rank() < 2 * c@.steps.len() + 5,
            step_arg(old(self).command) is Some && !(old(self).command is Prompt
                && delivers_frontmatter(Event::ConfigLoaded(x))) ==> a is Finish,
    {
        match x {
            Err(e) => self.finish(Err(e)),
            Ok(c) => {
                let checked = c.validate();
                self.config = c;
                match checked {
                    Err(e) => self.finish(Err(e)),
                    Ok(()) => {
                        let name = match step_override(&self.command) {
                            Some(n) => Some(owned(n)),
                            None => None,
                        };
                        match name {
                            Some(n) => match resolve_step(&self.config, n.as_str()) {
                                Err(e) => self.finish(Err(e)),
                                Ok(s) => self.finish_step(s),
                            },
                            None => {
                                self.stage = Stage::Locate;
                                Action::RunGit
                            },
                        }
                    },
                }
            },
        }
    }

    /// A config command deriving its step: git ran.
    fn on_locate(&mut self, x: Result<GitReport, Error>) -> (a: Action)
        requires
            old(self).inv(),
            old(self).stage is Locate,
        ensures
            advanced(*old(self), *final(self), Event::GitRan(x), a),
            !(final(self).stage is Config),
            a is Finish || final(self).rank() < old(self).rank(),
            located(git_result(x)) matches Err(e) ==> (a matches Action::Finish(r) && text_result(r)
                == Err::<Seq<char>, _>(e)),
            located(git_result(x)) matches Ok(d) ==> final(self).dir@ == d && (final(self).stage is Search
                || final(self).stage is Frontmatter || final(self).stage is Done),
    {
        let ghost x0 = x;
        match x {
            Err(e) => self.finish(Err(e)),
            Ok(g) => match parse_branch_output(g.exit_ok, g.stdout.as_str(), g.stderr.as_str()) {
                Err(e) => self.finish(Err(e)),
                Ok(b) => {
                    self.dir = artifact_dir_path(g.cwd.as_str(), b.as_str());
                    let mut search = StepSearch::new(&self.config);
                    let ghost s0 = search;
                    let step = search.advance(&self.config, self.dir.as_str(), None);
                    self.search = search;
                    let ghost steps = self.config@.steps;
                    let ghost dir = self.dir@;
                    let a = self.after_search(step);
                    proof {
                        assert forall|w: World| #[trigger] old(self).answered(Event::GitRan(x0), w) implies keeps(
                            *self,
                            a,
                            old(self).reply(w),
                            w,
                        ) by {
                            assert(s0.answered(None, steps, dir, w.present));
                            assert(s0.outcome(steps, dir, w.present) == current_step(
                                steps,
                                dir,
                                w.present,
                            ));
                        }
                    }
                    a
                },
            },
        }
    }

    /// A config command deriving its step: a trigger artifact was checked.
    fn on_search(&mut self, x: Result<bool, Error>) -> (a: Action)
        requires
            old(self).inv(),
            old(self).stage is Search,
        ensures
            advanced(*old(self), *final(self), Event::ArtifactChecked(x), a),
            !(final(self).stage is Config),
            a is Finish || final(self).rank() < old(self).rank(),
            x matches Err(e) ==> a == Action::Finish(Err(e)),
    {
        let mut search = self.search;
        let ghost before = self.search;
        let step = search.advance(&self.config, self.dir.as_str(), Some(x));
        self.search = search;
        let ghost checks = step is Check;
        let a = self.after_search(step);
        assert(checks ==> self.search.measure() < before.measure());
        a
    }

    /// `prompt`: git ran, for the frontmatter.
    fn on_frontmatter(&mut self, x: Result<GitReport, Error>) -> (a: Action)
        requires
            old(self).inv(),
            old(self).stage is Frontmatter,
        ensures
            advanced(*old(self), *final(self), Event::GitRan(x), a),
            !(final(self).stage is Config),
            a is Finish || final(self).rank() < old(self).rank(),
            final(self).stage is Done,
            old(self).stage matches Stage::Frontmatter { name, content } && a matches Action::Finish(
                r,
            ) && Reply::Text(text_result(r)) == frontmatter_reply(name@, content@, true, git_result(x)),
    {
        let (name, content) = match &self.stage {
            Stage::Frontmatter { name, content } => (name.clone(), content.clone()),
            _ => (String::new(), String::new()),
        };
        let r = match x {
            Err(e) => Err(e),
            Ok(g) => match parse_branch_output(g.exit_ok, g.stdout.as_str(), g.stderr.as_str()) {
                Err(e) => Err(e),
                Ok(b) => {
                    let dir = artifact_dir_path(g.cwd.as_str(), b.as_str());
                    Ok(with_frontmatter(name.as_str(), b.as_str(), dir.as_str(), content.as_str()))
                },
            },
        };
        self.finish(r)
    }

    /// Continue the run with what the outside work produced. Each exchange
    /// finishes the run or leaves it fewer exchanges to go in the world the
    /// event came from, and the config file is asked for only at the start.
    /// The creation of the config file and each git run but the one that
    /// locates the artifact directory end the run; so do a config file that
    /// cannot be loaded or does not validate, and a failed artifact check
    /// (with its error). With a step named on the command line, a command
    /// finishes as soon as its config is loaded (it never runs git or checks
    /// an artifact), unless it is a prompt shown with its frontmatter.
    pub fn advance(&mut self, event: Event) -> (a: Action)
        requires
            old(self).inv(),
            old(self).awaits(event),
        ensures
            advanced(*old(self), *final(self), event, a),
            forall|w: World| #[trigger]
                old(self).answered(event, w) ==> a is Finish || final(self).remaining(w) < old(
                    self,
                ).remaining(w),
            !(a is LoadConfig),
            old(self).stage is Branch || old(self).stage is ArtifactDirectory || old(self).stage is Frontmatter
                || old(self).stage is Create ==> a is Finish,
            old(self).stage is Config ==> (event matches Event::ConfigLoaded(Err(_)) ==> a is Finish),
            old(self).stage is Config ==> (event matches Event::ConfigLoaded(Ok(c))
                && validation_error(c@) is Some ==> a is Finish),
            event matches Event::ArtifactChecked(Err(e)) ==> a == Action::Finish(Err(e)),
            old(self).stage is Config && step_arg(old(self).command) is Some && !(old(
                self,
            ).command is Prompt && delivers_frontmatter(event)) ==> a is Finish,
    {
        match event {
            Event::ConfigCreated(x) => self.on_created(x),
            Event::ConfigLoaded(x) => self.on_config(x),
            Event::ArtifactChecked(x) => self.on_search(x),
            Event::GitRan(x) => match self.stage {
                Stage::Branch => self.on_branch(x),
                Stage::ArtifactDirectory => self.on_artifact_directory(x),
                Stage::Locate => self.on_locate(x),
                _ => self.on_frontmatter(x),
            },
        }
    }
}

/// The config file that action `a` asks to load or create is the one that
/// `cmd`'s `--config` argument and `env` locate, when `xdg_absolute` says
/// whether `XDG_CONFIG_HOME` is absolute.
pub open spec fn located_at(cmd: Commands, env: ConfigEnvView, xdg_absolute: bool, a: Action) -> bool {
    &&& a matches Action::LoadConfig { path, source } ==> config_path_of(
        config_arg(cmd),
        env,
        xdg_absolute,
    ) == Ok::<_, ErrorView>((path@, source))
    &&& a matches Action::CreateConfig(p) ==> config_path_of(config_arg(cmd), env, xdg_absolute) matches Ok(
        (q, _),
    ) && q == p@
}

/// Start `cli`'s command, given whether `XDG_CONFIG_HOME` is an absolute
/// path; the action is the first outside work, or the answer.
pub fn select_command_with(cli: &Cli, env: &ConfigEnv, xdg_absolute: bool) -> (r: (
    CommandRun,
    Action,
))
    ensures
        r.0.inv(),
        r.0.requests(r.1),
        r.0.command == cli.command,
        r.0.fresh(),
        uses_config(cli.command) ==> r.1 is LoadConfig || r.1 is Finish,
        uses_config(cli.command) && config_path_of(config_arg(cli.command), env@, xdg_absolute) is Ok
            ==> r.1 is LoadConfig,
        cli.command is Init && config_path_of(config_arg(cli.command), env@, xdg_absolute) is Ok
            ==> r.1 is CreateConfig,
        located_at(cli.command, env@, xdg_absolute, r.1),
        forall|w: World| keeps(r.0, r.1, #[trigger] expected(cli.command, env@, xdg_absolute, w), w),
{
    let command = cli.command.duplicate();
    match &cli.command {
        Commands::Branch => {
            let mut run = finished(command);
            run.stage = Stage::Branch;
            (run, Action::RunGit)
        },
        Commands::ArtifactDirectory => {
            let mut run = finished(command);
            run.stage = Stage::ArtifactDirectory;
            (run, Action::RunGit)
        },
        Commands::Init { .. } => {
            match config_file_path_with(config_override(&cli.command), env, xdg_absolute) {
                Err(e) => (finished(command), Action::Finish(Err(e))),
                Ok((p, _)) => {
                    let mut run = finished(command);
                    run.stage = Stage::Create { path: p.clone() };
                    (run, Action::CreateConfig(p))
                },
            }
        },
        _ => {
            match config_file_path_with(config_override(&cli.command), env, xdg_absolute) {
                Err(e) => (finished(command), Action::Finish(Err(e))),
                Ok((path, source)) => {
                    let mut run = finished(command);
                    run.stage = Stage::Config;
                    (run, Action::LoadConfig { path, source })
                },
            }
        },
    }
}

/// The run answers `expected` for the config location `xdg_absolute`
/// selects, in every world.
pub open spec fn starts(run: CommandRun, a: Action, cli: Cli, env: ConfigEnvView, xdg_absolute: bool) -> bool {
    forall|w: World| keeps(run, a, #[trigger] expected(cli.command, env, xdg_absolute, w), w)
}

/// Start `cli`'s command in the environment `env`; the action is the first
/// outside work, or the answer. A command that reads the config file asks
/// for it before any other outside work, and asks for the file that its
/// `--config` argument names (specified via `--config`) or, without one,
/// the file in the config directory that `env` locates.
pub fn select_command(cli: &Cli, env: &ConfigEnv) -> (r: (CommandRun, Action))
    ensures
        r.0.inv(),
        r.0.requests(r.1),
        r.0.command == cli.command,
        r.0.fresh(),
        uses_config(cli.command) ==> r.1 is LoadConfig || r.1 is Finish,
        (starts(r.0, r.1, *cli, env@, true) && located_at(cli.command, env@, true, r.1)) || (starts(
            r.0,
            r.1,
            *cli,
            env@,
            false,
        ) && located_at(cli.command, env@, false, r.1)),
        env@.xdg_config_home matches Some(x) && (x.len() == 0 || (x[0] != '/' && x[0] != '\\'
            && !(x.len() >= 2 && x[1] == ':'))) ==> starts(r.0, r.1, *cli, env@, false)
            && located_at(cli.command, env@, false, r.1),
        env@.xdg_config_home is None ==> starts(r.0, r.1, *cli, env@, false) && located_at(
            cli.command,
            env@,
            false,
            r.1,
        ),
        uses_config(cli.command) && config_arg(cli.command) is Some ==> r.1 is LoadConfig,
        config_arg(cli.command) matches Some(p) ==> (r.1 matches Action::LoadConfig { path, source }
            ==> path@ == p && source == ConfigPathSource::ExplicitFlag),
        config_arg(cli.command) matches Some(p) ==> (r.1 matches Action::CreateConfig(q) ==> q@
            == p),
        cli.command is Init && config_arg(cli.command) is Some ==> r.1 is CreateConfig,
{
    let xdg_absolute = match &env.xdg_config_home {
        Some(x) => path_is_absolute(x.as_str()),
        None => false,
    };
    select_command_with(cli, env, xdg_absolute)
}

} // verus!
