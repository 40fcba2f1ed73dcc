//! Lookups in a configuration, the artifact-directory path, and the search
//! for the current step.
use crate::config::{Config, ConfigView, Model, ModelView, Step, StepView};
use crate::errors::{error_of, Error, ErrorView};
use crate::scan::{first_index, lemma_first_index_is, lemma_first_index_none};
use crate::text::{cat, dash_slashes, dashed, debug_quoted, debug_str, owned, same_text};
use vstd::prelude::*;

verus! {

/// `<cwd>/.pi/orksorksorks/<branch>/`, with every `/` of the branch
/// replaced by `-` so the branch is one path segment.
pub open spec fn artifact_dir_of(cwd: Seq<char>, branch: Seq<char>) -> Seq<char> {
    cwd + "/.pi/orksorksorks/"@ + dashed(branch) + "/"@
}

/// Compose the artifact-directory path from a working directory and a
/// branch name.
pub fn artifact_dir_path(cwd: &str, branch: &str) -> (r: String)
    ensures
        r@ == artifact_dir_of(cwd@, branch@),
{
    let mut r = cat(cwd, "/.pi/orksorksorks/");
    let segment = dash_slashes(branch);
    r.append(segment.as_str());
    r.append("/");
    assert(r@ =~= artifact_dir_of(cwd@, branch@));
    r
}

/// The first model named `name`.
pub open spec fn model_index(c: ConfigView, name: Seq<char>) -> Option<int> {
    first_index(c.models.len() as int, |j: int| c.models[j].name == name)
}

/// The first step named `name`.
pub open spec fn step_index(c: ConfigView, name: Seq<char>) -> Option<int> {
    first_index(c.steps.len() as int, |j: int| c.steps[j].name == name)
}

/// The first prompt named `name`.
pub open spec fn prompt_index(c: ConfigView, name: Seq<char>) -> Option<int> {
    first_index(c.prompts.len() as int, |j: int| c.prompts[j].name == name)
}

/// The first script named `name`.
pub open spec fn script_index(c: ConfigView, name: Seq<char>) -> Option<int> {
    first_index(c.scripts.len() as int, |j: int| c.scripts[j].name == name)
}

/// The error for a name that `kind` entries do not hold.
pub open spec fn unknown(kind: Seq<char>, name: Seq<char>) -> ErrorView {
    error_of(kind, "no "@ + kind + " named "@ + debug_str(name))
}

/// The error for an unknown name of kind `kind`.
fn unknown_name(kind: &str, name: &str) -> (r: Error)
    ensures
        r@ == unknown(kind@, name@),
{
    let mut m = cat("no ", kind);
    m.append(" named ");
    m.append(debug_quoted(name).as_str());
    assert(m@ =~= "no "@ + kind@ + " named "@ + debug_str(name@));
    Error { source: owned(kind), message: m }
}

/// The model named `name`; the first match wins.
pub fn resolve_model(config: &Config, name: &str) -> (r: Result<Model, Error>)
    ensures
        model_index(config@, name@) matches Some(j) ==> (r matches Ok(m) && m@ == config@.models[j]),
        model_index(config@, name@) is None ==> (r matches Err(e) && e@ == unknown(
            "model"@,
            name@,
        )),
{
    let ghost c = config@;
    let ghost p = |j: int| c.models[j].name == name@;
    let n = config.models.len();
    let mut j: usize = 0;
    while j < n
        invariant
            n == config.models@.len(),
            c == config@,
            p == (|j: int| c.models[j].name == name@),
            j <= n,
            forall|k: int| 0 <= k < j ==> !#[trigger] p(k),
        decreases n - j,
    {
        if same_text(config.models[j].name.as_str(), name) {
            proof {
                assert(p(j as int));
                lemma_first_index_is(n as int, p, j as int);
            }
            return Ok(config.models[j].duplicate());
        }
        assert(!p(j as int));
        j = j + 1;
    }
    proof {
        lemma_first_index_none(n as int, p);
    }
    Err(unknown_name("model", name))
}

/// The step named `name`; the first match wins.
pub fn resolve_step(config: &Config, name: &str) -> (r: Result<Step, Error>)
    ensures
        step_index(config@, name@) matches Some(j) ==> (r matches Ok(s) && s@ == config@.steps[j]),
        step_index(config@, name@) is None ==> (r matches Err(e) && e@ == unknown(
            "step"@,
            name@,
        )),
{
    let ghost c = config@;
    let ghost p = |j: int| c.steps[j].name == name@;
    let n = config.steps.len();
    let mut j: usize = 0;
    while j < n
        invariant
            n == config.steps@.len(),
            c == config@,
            p == (|j: int| c.steps[j].name == name@),
            j <= n,
            forall|k: int| 0 <= k < j ==> !#[trigger] p(k),
        decreases n - j,
    {
        if same_text(config.steps[j].name.as_str(), name) {
            proof {
                assert(p(j as int));
                lemma_first_index_is(n as int, p, j as int);
            }
            return Ok(config.steps[j].duplicate());
        }
        assert(!p(j as int));
        j = j + 1;
    }
    proof {
        lemma_first_index_none(n as int, p);
    }
    Err(unknown_name("step", name))
}

/// The content of the prompt named `name`; the first match wins.
pub fn resolve_prompt(config: &Config, name: &str) -> (r: Result<String, Error>)
    ensures
        prompt_index(config@, name@) matches Some(j) ==> (r matches Ok(s) && s@
            == config@.prompts[j].content),
        prompt_index(config@, name@) is None ==> (r matches Err(e) && e@ == unknown(
            "prompt"@,
            name@,
        )),
{
    let ghost c = config@;
    let ghost p = |j: int| c.prompts[j].name == name@;
    let n = config.prompts.len();
    let mut j: usize = 0;
    while j < n
        invariant
            n == config.prompts@.len(),
            c == config@,
            p == (|j: int| c.prompts[j].name == name@),
            j <= n,
            forall|k: int| 0 <= k < j ==> !#[trigger] p(k),
        decreases n - j,
    {
        if same_text(config.prompts[j].name.as_str(), name) {
            proof {
                assert(p(j as int));
                lemma_first_index_is(n as int, p, j as int);
            }
            return Ok(config.prompts[j].content.clone());
        }
        assert(!p(j as int));
        j = j + 1;
    }
    proof {
        lemma_first_index_none(n as int, p);
    }
    Err(unknown_name("prompt", name))
}

/// The content of the script named `name`; the first match wins.
pub fn resolve_script(config: &Config, name: &str) -> (r: Result<String, Error>)
    ensures
        script_index(config@, name@) matches Some(j) ==> (r matches Ok(s) && s@
            == config@.scripts[j].content),
        script_index(config@, name@) is None ==> (r matches Err(e) && e@ == unknown(
            "script"@,
            name@,
        )),
{
    let ghost c = config@;
    let ghost p = |j: int| c.scripts[j].name == name@;
    let n = config.scripts.len();
    let mut j: usize = 0;
    while j < n
        invariant
            n == config.scripts@.len(),
            c == config@,
            p == (|j: int| c.scripts[j].name == name@),
            j <= n,
            forall|k: int| 0 <= k < j ==> !#[trigger] p(k),
        decreases n - j,
    {
        if same_text(config.scripts[j].name.as_str(), name) {
            proof {
                assert(p(j as int));
                lemma_first_index_is(n as int, p, j as int);
            }
            return Ok(config.scripts[j].content.clone());
        }
        assert(!p(j as int));
        j = j + 1;
    }
    proof {
        lemma_first_index_none(n as int, p);
    }
    Err(unknown_name("script", name))
}

} // verus!
