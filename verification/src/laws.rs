//! Properties that hold across the library's functions.
use crate::commands::{
    advanced, answers, config_arg, config_steps, derived, expected, frontmatter_reply, keeps, named,
    no_script, reply_for, reply_selected, starts, step_arg, uses_config, Action, Cli, CommandRun,
    Commands, CreateFailure, Event, GitReport, GitView, Reply, World,
};
use crate::config_dir::{config_path_of, ConfigEnvView, ConfigPathSource};
use crate::git::branch_of;
use crate::resolve::artifact_dir_of;
use crate::search::artifact_of;
use crate::config::{
    validation_error, consistent, default_names, model_names, prompt_names, step_names, ConfigView, StepView,
    Config, CONFIG_VERSION,
};
use crate::errors::{Error, ErrorView};
use crate::resolve::{model_index, prompt_index, script_index, step_index, unknown};
use crate::scan::lemma_first_index;
use crate::commands::frontmatter;
use crate::text::{
    dashed, is_white_space, lemma_leading_white, lemma_trailing_white, leading_white, trailing_white,
    trimmed,
};
use vstd::prelude::*;

verus! {

/// In a consistent configuration every step is found by its own name, and
/// its prompt and its model exist.
pub proof fn lemma_steps_resolve(c: ConfigView, j: int)
    requires
        consistent(c),
        0 <= j < c.steps.len(),
    ensures
        step_index(c, c.steps[j].name) == Some(j),
        prompt_index(c, c.steps[j].name) is Some,
        model_index(c, c.steps[j].model) is Some,
{
    let name = c.steps[j].name;
    let ps = |k: int| c.steps[k].name == name;
    lemma_first_index(c.steps.len() as int, ps);
    assert(ps(j));
    if step_index(c, name) is Some {
        let i = step_index(c, name)->0;
        if i < j {
            assert(step_names(c)[i] == step_names(c)[j]);
        }
    }
    assert(prompt_names(c).contains(c.steps[j].name));
    let k = choose|k: int| 0 <= k < prompt_names(c).len() && prompt_names(c)[k] == name;
    let pp = |k: int| c.prompts[k].name == name;
    lemma_first_index(c.prompts.len() as int, pp);
    assert(pp(k));
    assert(model_names(c).contains(c.steps[j].model));
    let m = choose|m: int| 0 <= m < model_names(c).len() && model_names(c)[m] == c.steps[j].model;
    let pm = |m: int| c.models[m].name == c.steps[j].model;
    lemma_first_index(c.models.len() as int, pm);
    assert(pm(m));
}

/// For a consistent configuration, `model`, `thinking` and `step` answer
/// for every step, and `prompt` answers with the step's prompt text (below
/// the frontmatter when it is shown, which needs git): the `model` and
/// `prompt` lookups never fail.
pub proof fn lemma_consistent_replies(c: ConfigView, j: int, git: Result<GitView, ErrorView>)
    requires
        consistent(c),
        0 <= j < c.steps.len(),
    ensures
        reply_for(
            crate::commands::Commands::Step { config: None, step: None },
            c,
            c.steps[j],
            git,
        ) == Reply::Text(Ok(c.steps[j].name)),
        reply_for(
            crate::commands::Commands::Model { config: None, step: None },
            c,
            c.steps[j],
            git,
        ) == Reply::Text(Ok(c.models[model_index(c, c.steps[j].model)->0].model)),
        reply_for(
            crate::commands::Commands::Thinking { config: None, step: None },
            c,
            c.steps[j],
            git,
        ) == Reply::Text(Ok(c.models[model_index(c, c.steps[j].model)->0].thinking)),
        reply_for(
            crate::commands::Commands::Prompt { config: None, step: None },
            c,
            c.steps[j],
            git,
        ) == frontmatter_reply(
            c.steps[j].name,
            c.prompts[prompt_index(c, c.steps[j].name)->0].content,
            c.show_frontmatter,
            git,
        ),
        !c.show_frontmatter ==> reply_for(
            crate::commands::Commands::Prompt { config: None, step: None },
            c,
            c.steps[j],
            git,
        ) == Reply::Text(Ok(c.prompts[prompt_index(c, c.steps[j].name)->0].content)),
{
    lemma_steps_resolve(c, j);
}

/// The number of default steps counts each one.
proof fn lemma_default_names_has(steps: Seq<StepView>, i: int)
    requires
        0 <= i < steps.len(),
        steps[i].trigger.len() == 0,
    ensures
        default_names(steps).len() >= 1,
    decreases steps.len(),
{
    if i < steps.len() - 1 {
        lemma_default_names_has(steps.drop_last(), i);
    }
}

/// Two default steps make two default names.
proof fn lemma_default_names_two(steps: Seq<StepView>, i: int, k: int)
    requires
        0 <= i < k < steps.len(),
        steps[i].trigger.len() == 0,
        steps[k].trigger.len() == 0,
    ensures
        default_names(steps).len() >= 2,
    decreases steps.len(),
{
    if k == steps.len() - 1 {
        lemma_default_names_has(steps.drop_last(), i);
    } else {
        lemma_default_names_two(steps.drop_last(), i, k);
    }
}

/// A consistent configuration has at most one default step, and no two
/// steps share a non-empty trigger, so at most one step matches a given
/// trigger artifact.
pub proof fn lemma_unique_triggers(c: ConfigView, i: int, k: int)
    requires
        consistent(c),
        0 <= i < c.steps.len(),
        0 <= k < c.steps.len(),
        c.steps[i].trigger == c.steps[k].trigger,
    ensures
        i == k,
{
    if i != k {
        let (a, b) = if i < k { (i, k) } else { (k, i) };
        if c.steps[b].trigger.len() == 0 {
            lemma_default_names_two(c.steps, a, b);
        }
    }
}

/// The default configuration (supported version, nothing declared) is
/// consistent.
pub proof fn lemma_empty_config_consistent(c: ConfigView)
    requires
        c.version == CONFIG_VERSION@,
        c.steps.len() == 0,
        c.models.len() == 0,
        c.prompts.len() == 0,
    ensures
        consistent(c),
{
    assert(default_names(c.steps) =~= Seq::<Seq<char>>::empty());
}

/// The branch segment of the artifact directory holds no `/`.
pub proof fn lemma_dashed_no_slash(branch: Seq<char>)
    ensures
        dashed(branch).len() == branch.len(),
        !dashed(branch).contains('/'),
{
    if dashed(branch).contains('/') {
        let k = choose|k: int| 0 <= k < dashed(branch).len() && dashed(branch)[k] == '/';
        assert(dashed(branch)[k] == if branch[k] == '/' { '-' } else { branch[k] });
    }
}

/// `leading_white` counts the white space that starts `s`: those characters
/// are white space and the next one is not.
proof fn lemma_leading_white_spec(s: Seq<char>)
    ensures
        leading_white(s) <= s.len(),
        forall|k: int| 0 <= k < leading_white(s) ==> is_white_space(#[trigger] s[k]),
        leading_white(s) < s.len() ==> !is_white_space(s[leading_white(s) as int]),
    decreases s.len(),
{
    if s.len() > 0 && is_white_space(s[0]) {
        let t = s.drop_first();
        lemma_leading_white_spec(t);
        assert forall|k: int| 0 <= k < leading_white(s) implies is_white_space(#[trigger] s[k]) by {
            if k > 0 {
                assert(s[k] == t[k - 1]);
            }
        }
        if leading_white(s) < s.len() {
            assert(s[leading_white(s) as int] == t[leading_white(t) as int]);
        }
    }
}

/// `trailing_white` counts the white space that ends `s`.
proof fn lemma_trailing_white_spec(s: Seq<char>)
    ensures
        trailing_white(s) <= s.len(),
        forall|k: int| s.len() - trailing_white(s) <= k < s.len() ==> is_white_space(#[trigger] s[k]),
        trailing_white(s) < s.len() ==> !is_white_space(s[s.len() - trailing_white(s) - 1]),
    decreases s.len(),
{
    if s.len() > 0 && is_white_space(s.last()) {
        let t = s.drop_last();
        lemma_trailing_white_spec(t);
        assert forall|k: int| s.len() - trailing_white(s) <= k < s.len() implies is_white_space(
            #[trigger] s[k],
        ) by {
            if k < s.len() - 1 {
                assert(s[k] == t[k]);
            }
        }
        if trailing_white(s) < s.len() {
            assert(s[s.len() - trailing_white(s) - 1] == t[t.len() - trailing_white(t) - 1]);
        }
    }
}

/// A trimmed text neither starts nor ends with white space.
pub proof fn lemma_trimmed_clean(s: Seq<char>)
    ensures
        trimmed(s).len() > 0 ==> !is_white_space(trimmed(s)[0]) && !is_white_space(
            trimmed(s).last(),
        ),
        trimmed(s).len() <= s.len(),
{
    lemma_leading_white_spec(s);
    let rest = s.skip(leading_white(s) as int);
    lemma_trailing_white_spec(rest);
    if trimmed(s).len() > 0 {
        assert(trimmed(s)[0] == rest[0]);
        assert(rest[0] == s[leading_white(s) as int]);
        assert(trimmed(s).last() == rest[rest.len() - trailing_white(rest) - 1]);
    }
}

/// Each exchange keeps the answer: if a run that will answer `reply` in
/// world `w` asks for outside work, and the work is answered as `w` says,
/// the advanced run still answers `reply` in `w`. With `select_command`'s
/// contract, a command run against `w` ends with `expected` for `w`.
pub proof fn lemma_exchange_keeps(
    before: CommandRun,
    a: Action,
    e: Event,
    after: CommandRun,
    b: Action,
    reply: Reply,
    w: World,
)
    requires
        keeps(before, a, reply, w),
        !(a is Finish),
        before.answered(e, w),
        advanced(before, after, e, b),
    ensures
        keeps(after, b, reply, w),
{
}

/// One exchange as `CommandRun::advance` makes it, with the outside work
/// answered as `w` says: the run finishes, or fewer exchanges remain.
pub open spec fn exchange(before: CommandRun, after: CommandRun, e: Event, a: Action, w: World) -> bool {
    &&& before.answered(e, w)
    &&& advanced(before, after, e, a)
    &&& (a is Finish || after.remaining(w) < before.remaining(w))
}

/// A sequence of exchanges in world `w`: `runs[0]` asks for `acts[0]`, and
/// each unfinished `acts[i]` is answered by `events[i]`, which turns
/// `runs[i]` into `runs[i + 1]` asking for `acts[i + 1]`.
pub open spec fn exchanges(runs: Seq<CommandRun>, acts: Seq<Action>, events: Seq<Event>, w: World) -> bool {
    &&& runs.len() == events.len() + 1
    &&& acts.len() == runs.len()
    &&& runs[0].requests(acts[0])
    &&& forall|i: int|
        #![trigger events[i]]
        0 <= i < events.len() ==> !(acts[i] is Finish) && exchange(
            runs[i],
            runs[i + 1],
            events[i],
            acts[i + 1],
            w,
        )
}

/// A run never has a negative number of exchanges left, and one that asks
/// for outside work has at least one left.
proof fn lemma_remaining(run: CommandRun, a: Action, w: World)
    requires
        run.requests(a),
    ensures
        run.remaining(w) >= 0,
        !(a is Finish) ==> run.remaining(w) >= 1,
        a is Finish ==> run.remaining(w) == 0,
{
}

/// Along a sequence of exchanges the remaining count drops by one at least
/// per exchange: a run finishes within as many exchanges as it has left,
/// and each exchange keeps the answer it is bound to give.
pub proof fn lemma_exchanges_bounded(
    runs: Seq<CommandRun>,
    acts: Seq<Action>,
    events: Seq<Event>,
    w: World,
    reply: Reply,
)
    requires
        exchanges(runs, acts, events, w),
        keeps(runs[0], acts[0], reply, w),
    ensures
        forall|k: int| 0 <= k < runs.len() ==> #[trigger] runs[k].remaining(w) + k <= runs[0].remaining(w),
        events.len() <= runs[0].remaining(w),
        !(acts.last() is Finish) ==> events.len() < runs[0].remaining(w),
        runs.last().requests(acts.last()),
        keeps(runs.last(), acts.last(), reply, w),
    decreases events.len(),
{
    let n = events.len() as int;
    if n == 0 {
        lemma_remaining(runs[0], acts[0], w);
    } else {
        let r2 = runs.drop_last();
        let a2 = acts.drop_last();
        let e2 = events.drop_last();
        assert forall|i: int|
            #![trigger e2[i]]
            #![trigger a2[i]]
            0 <= i < e2.len() implies !(a2[i] is Finish) && exchange(
            r2[i],
            r2[i + 1],
            e2[i],
            a2[i + 1],
            w,
        ) by {
            assert(events[i] == e2[i]);
            assert(a2[i] == acts[i]);
        }
        assert(r2[0] == runs[0] && a2[0] == acts[0]);
        lemma_exchanges_bounded(r2, a2, e2, w, reply);
        assert(events[n - 1] == events[n - 1]);
        assert(r2.last() == runs[n - 1] && a2.last() == acts[n - 1]);
        lemma_remaining(runs[n - 1], acts[n - 1], w);
        lemma_remaining(runs[n], acts[n], w);
        lemma_exchange_keeps(runs[n - 1], acts[n - 1], events[n - 1], runs[n], acts[n], reply, w);
        assert forall|k: int| 0 <= k < runs.len() implies #[trigger] runs[k].remaining(w) + k
            <= runs[0].remaining(w) by {
            if k < n {
                assert(r2[k] == runs[k]);
            }
        }
    }
}

/// Every command finishes with the answer its world calls for: a run
/// started by `select_command`, whose outside work is answered as `w`
/// says, has finished within `2 * n + 5` exchanges, where `n` is the
/// number of steps of the config file in `w`, and when it finishes it
/// answers `expected` for `w`. (Each piece of work it asks for can be
/// answered: see `lemma_requests_awaited`.)
pub proof fn lemma_command_finishes(
    cli: Cli,
    env: ConfigEnvView,
    xdg_absolute: bool,
    runs: Seq<CommandRun>,
    acts: Seq<Action>,
    events: Seq<Event>,
    w: World,
)
    requires
        runs.len() >= 1,
        runs[0].fresh(),
        starts(runs[0], acts[0], cli, env, xdg_absolute),
        exchanges(runs, acts, events, w),
    ensures
        events.len() <= 2 * config_steps(w) + 5,
        !(acts.last() is Finish) ==> events.len() < 2 * config_steps(w) + 5,
        acts.last() matches Action::Finish(r) ==> answers(expected(cli.command, env, xdg_absolute, w), r),
{
    let reply = expected(cli.command, env, xdg_absolute, w);
    assert(keeps(runs[0], acts[0], reply, w));
    lemma_exchanges_bounded(runs, acts, events, w, reply);
    assert(runs[0].remaining(w) <= 2 * config_steps(w) + 5);
}

/// A run goes on past loading its config file only with a consistent
/// config: while it locates the artifact directory or checks trigger
/// artifacts, its config validates.
pub proof fn lemma_goes_on_only_when_valid(run: CommandRun)
    requires
        run.inv(),
        run.stage is Locate || run.stage is Search,
    ensures
        consistent(run.config@),
{
    crate::config::lemma_validation_consistent(run.config@);
}

/// What a command that reads the config file answers, once its location
/// resolves: a config that cannot be loaded answers with the load error; a
/// config that does not validate, with its validation error; otherwise the
/// step named on the command line (found by name, whatever git or the
/// artifacts say) or else the step derived from git and the trigger
/// artifacts is answered for.
pub proof fn lemma_config_answers(cmd: Commands, env: ConfigEnvView, xdg_absolute: bool, w: World)
    requires
        uses_config(cmd),
        config_path_of(config_arg(cmd), env, xdg_absolute) is Ok,
    ensures
        w.config matches Err(e) ==> expected(cmd, env, xdg_absolute, w) == Reply::Text(Err(e)),
        w.config matches Ok(c) ==> (validation_error(c) matches Some(v) ==> expected(
            cmd,
            env,
            xdg_absolute,
            w,
        ) == Reply::Text(Err(v))),
        w.config matches Ok(c) ==> (validation_error(c) is None ==> (step_arg(cmd) matches Some(n)
            ==> expected(cmd, env, xdg_absolute, w) == reply_selected(cmd, c, named(c, n), w))),
        w.config matches Ok(c) ==> (validation_error(c) is None ==> (step_arg(cmd) is None
            ==> expected(cmd, env, xdg_absolute, w) == reply_selected(cmd, c, derived(c, w), w))),
{
}

/// Once its step `s` is selected, `model` answers with the model string of
/// the model the step names (not the name itself), and `script` with the
/// raw content of the script the step names, with no frontmatter; neither
/// depends on git.
pub proof fn lemma_model_and_script_answers(c: ConfigView, s: StepView, git: Result<GitView, ErrorView>)
    ensures
        reply_for(Commands::Model { config: None, step: None }, c, s, git) == match model_index(
            c,
            s.model,
        ) {
            Some(m) => Reply::Text(Ok(c.models[m].model)),
            None => Reply::Text(Err(unknown("model"@, s.model))),
        },
        reply_for(Commands::Script { step_name: None, config: None }, c, s, git) == match s.script {
            None => Reply::Text(Err(no_script(s.name))),
            Some(k) => match script_index(c, k) {
                Some(j) => Reply::Text(Ok(c.scripts[j].content)),
                None => Reply::Text(Err(unknown("script"@, k))),
            },
        },
{
}

/// The only file a command ever asks to write is the config file that
/// `init` creates: no other command asks for `CreateConfig`.
pub proof fn lemma_only_init_writes(run: CommandRun, a: Action)
    requires
        run.inv(),
        run.requests(a),
        a is CreateConfig,
    ensures
        run.command is Init,
{
}

/// Every piece of outside work a run asks for is answered by an event the
/// run waits for.
pub proof fn lemma_requests_awaited(run: CommandRun, a: Action)
    requires
        run.requests(a),
    ensures
        a is LoadConfig ==> forall|x: Result<Config, Error>| #[trigger] run.awaits(
            Event::ConfigLoaded(x),
        ),
        a is RunGit ==> forall|x: Result<GitReport, Error>| #[trigger] run.awaits(Event::GitRan(x)),
        a is CheckArtifact ==> forall|x: Result<bool, Error>| #[trigger] run.awaits(
            Event::ArtifactChecked(x),
        ),
        a is CreateConfig ==> forall|x: Result<(), CreateFailure>| #[trigger] run.awaits(
            Event::ConfigCreated(x),
        ),
{
}

/// Without `--config`, an absolute `XDG_CONFIG_HOME` wins whatever `HOME`
/// and `APPDATA` hold: the config file is `orksorksorks.toml` directly in
/// that directory (a `/` is put between them unless the directory already
/// ends in one), resolved from `XDG_CONFIG_HOME`.
pub proof fn lemma_absolute_xdg_wins(env: ConfigEnvView, x: Seq<char>)
    requires
        env.xdg_config_home == Some(x),
        x.len() > 0,
    ensures
        x.last() == '/' ==> config_path_of(None, env, true) == Ok::<_, ErrorView>(
            (x + "orksorksorks.toml"@, ConfigPathSource::XdgConfigHome),
        ),
        !env.windows && x.last() != '/' ==> config_path_of(None, env, true) == Ok::<_, ErrorView>(
            (x + "/orksorksorks.toml"@, ConfigPathSource::XdgConfigHome),
        ),
        forall|home: Option<Seq<char>>, app_data: Option<Seq<char>>|
            #[trigger] config_path_of(
                None,
                ConfigEnvView { home, app_data, ..env },
                true,
            ) == config_path_of(None, env, true),
{
    reveal_strlit("orksorksorks.toml");
    reveal_strlit("/orksorksorks.toml");
    assert(crate::config_dir::FILE_NAME@ == "orksorksorks.toml"@);
    assert(seq!['/'] + "orksorksorks.toml"@ =~= "/orksorksorks.toml"@);
    assert(x + seq!['/'] + "orksorksorks.toml"@ =~= x + "/orksorksorks.toml"@);
}

/// Off Windows, when `XDG_CONFIG_HOME` is unset or not absolute, the config
/// file is `.config/orksorksorks.toml` under `HOME`, resolved from
/// `HOME/.config`.
pub proof fn lemma_home_config_when_no_xdg(env: ConfigEnvView, xdg_absolute: bool, h: Seq<char>)
    requires
        env.xdg_config_home is None || !xdg_absolute,
        !env.windows,
        env.home == Some(h),
        h.len() > 0,
        h.last() != '/',
    ensures
        config_path_of(None, env, xdg_absolute) == Ok::<_, ErrorView>(
            (h + "/.config/orksorksorks.toml"@, ConfigPathSource::HomeDotConfig),
        ),
{
    reveal_strlit("orksorksorks.toml");
    reveal_strlit(".config");
    reveal_strlit("/.config/orksorksorks.toml");
    assert(crate::config_dir::FILE_NAME@ == "orksorksorks.toml"@);
    let d = h + seq!['/'] + ".config"@;
    assert(d.last() == 'g');
    assert(d + seq!['/'] + "orksorksorks.toml"@ =~= h + "/.config/orksorksorks.toml"@);
}

/// The branch segment of the artifact directory differs from the branch
/// only where the branch holds `/`, which becomes `-`; every other
/// character is kept in place.
pub proof fn lemma_dashed_only_slashes(b: Seq<char>)
    ensures
        dashed(b).len() == b.len(),
        forall|k: int|
            0 <= k < b.len() ==> #[trigger] dashed(b)[k] == if b[k] == '/' {
                '-'
            } else {
                b[k]
            },
        (forall|k: int| 0 <= k < b.len() ==> b[k] != '/') ==> dashed(b) == b,
{
    if forall|k: int| 0 <= k < b.len() ==> b[k] != '/' {
        assert(dashed(b) =~= b);
    }
}

/// The artifact directory is the working directory, then
/// `/.pi/orksorksorks/`, then the branch with only its slashes turned into
/// `-`, then `/`; a branch without `/` appears unchanged.
pub proof fn lemma_artifact_dir_shape(cwd: Seq<char>, b: Seq<char>)
    ensures
        artifact_dir_of(cwd, b).len() == cwd.len() + 18 + b.len() + 1,
        artifact_dir_of(cwd, b).take(cwd.len() as int) == cwd,
        artifact_dir_of(cwd, b).last() == '/',
        forall|k: int|
            0 <= k < b.len() ==> #[trigger] artifact_dir_of(cwd, b)[cwd.len() + 18 + k] == if b[k]
                == '/' {
                '-'
            } else {
                b[k]
            },
        (forall|k: int| 0 <= k < b.len() ==> b[k] != '/') ==> artifact_dir_of(cwd, b) == cwd
            + "/.pi/orksorksorks/"@ + b + "/"@,
{
    reveal_strlit("/.pi/orksorksorks/");
    reveal_strlit("/");
    lemma_dashed_only_slashes(b);
    let a = artifact_dir_of(cwd, b);
    assert(a.take(cwd.len() as int) =~= cwd);
    assert forall|k: int| 0 <= k < b.len() implies #[trigger] a[cwd.len() + 18 + k] == if b[k]
        == '/' {
        '-'
    } else {
        b[k]
    } by {
        assert(a[cwd.len() + 18 + k] == dashed(b)[k]);
    }
}

/// The frontmatter's branch line holds exactly the branch it is given, and
/// its artifact-directory line the directory it is given.
pub proof fn lemma_frontmatter_lines(step: Seq<char>, b: Seq<char>, dir: Seq<char>)
    ensures
        exists|i: int|
            0 <= i && i + 10 + b.len() + 22 <= frontmatter(step, b, dir).len() && #[trigger] frontmatter(
                step,
                b,
                dir,
            ).subrange(i, i + 10 + b.len() + 22) == "\nbranch = "@ + b + "\nartifact_directory = "@,
        exists|i: int|
            0 <= i && i + 8 + step.len() + 1 <= frontmatter(step, b, dir).len() && #[trigger] frontmatter(
                step,
                b,
                dir,
            ).subrange(i, i + 8 + step.len() + 1) == "\nstep = "@ + step + "\n"@,
        frontmatter(step, b, dir).take(23) == "## Important variables\n"@,
{
    reveal_strlit("## Important variables\nUse these everywhere you see $<variable>\nstep = ");
    reveal_strlit("\nbranch = ");
    reveal_strlit("\nartifact_directory = ");
    reveal_strlit("\n\n");
    reveal_strlit("\nstep = ");
    reveal_strlit("\n");
    reveal_strlit("## Important variables\n");
    let head = "## Important variables\nUse these everywhere you see $<variable>\nstep = "@;
    let f = frontmatter(step, b, dir);
    let i: int = head.len() as int + step.len() as int;
    assert(f.subrange(i, i + 10 + b.len() + 22) =~= "\nbranch = "@ + b + "\nartifact_directory = "@);
    let j: int = head.len() - 8;
    assert(f.subrange(j, j + 8 + step.len() + 1) =~= "\nstep = "@ + step + "\n"@);
    assert(f.take(23) =~= "## Important variables\n"@);
}

/// The branch git reports is its output with the surrounding white space
/// removed, and nothing else changed: a non-empty piece of the output that
/// starts and ends with other characters, surrounded only by white space;
/// an output without white space is the branch itself.
pub proof fn lemma_branch_is_trimmed_output(out: Seq<char>, err: Seq<char>)
    ensures
        branch_of(true, out, err) matches Ok(b) ==> {
            &&& b.len() > 0
            &&& !is_white_space(b[0]) && !is_white_space(b.last())
            &&& exists|i: int|
                0 <= i && i + b.len() <= out.len() && #[trigger] out.subrange(i, i + b.len()) == b
                    && (forall|k: int| 0 <= k < i ==> is_white_space(#[trigger] out[k])) && (forall|
                    k: int,
                | i + b.len() <= k < out.len() ==> is_white_space(#[trigger] out[k]))
        },
        out.len() > 0 && (forall|k: int| 0 <= k < out.len() ==> !is_white_space(#[trigger] out[k]))
            ==> branch_of(true, out, err) == Ok::<_, ErrorView>(out),
{
    lemma_trimmed_clean(out);
    lemma_leading_white_spec(out);
    let i = leading_white(out) as int;
    let rest = out.skip(i);
    lemma_trailing_white_spec(rest);
    let b = trimmed(out);
    if b.len() > 0 {
        assert(out.subrange(i, i + b.len()) =~= b);
        assert forall|k: int| i + b.len() <= k < out.len() implies is_white_space(#[trigger] out[k]) by {
            assert(out[k] == rest[k - i]);
        }
    }
    if out.len() > 0 && (forall|k: int| 0 <= k < out.len() ==> !is_white_space(#[trigger] out[k])) {
        lemma_leading_white(out, 0);
        assert(rest =~= out);
        lemma_trailing_white(out, out.len() as int);
        assert(b =~= out);
    }
}

/// The path checked for a step's trigger artifact is the artifact
/// directory followed by the trigger text, unchanged.
pub proof fn lemma_artifact_path(dir: Seq<char>, s: StepView)
    ensures
        artifact_of(dir, s).len() == dir.len() + s.trigger.len(),
        artifact_of(dir, s).take(dir.len() as int) == dir,
        artifact_of(dir, s).skip(dir.len() as int) == s.trigger,
{
    assert(artifact_of(dir, s).take(dir.len() as int) =~= dir);
    assert(artifact_of(dir, s).skip(dir.len() as int) =~= s.trigger);
}

} // verus!
