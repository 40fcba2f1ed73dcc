//! The configuration model (`orksorksorks.toml`) and its validation.
use crate::errors::{error_of, Error, ErrorView};
use crate::scan::{first_index, lemma_first_index, lemma_first_index_is, lemma_first_index_none};
use crate::text::{blank, cat, debug_quoted, debug_str, decimal, decimal_string, is_blank, owned};
use vstd::prelude::*;

verus! {

/// The config format version this build reads and writes.
pub const CONFIG_VERSION: &'static str = "0.1.0";

/// A single named step, gated on the presence of a trigger artifact.
#[derive(Clone, Debug, PartialEq, Eq)]
pub struct Step {
    /// Name returned by the `step` command.
    pub name: String,
    /// File whose presence in the artifact directory marks this step; empty
    /// for the default step.
    pub trigger_artifact: String,
    /// Name of the model (a `Config::models` entry) used at this step.
    pub model: String,
    /// Optional name of a `Config::scripts` entry.
    pub script: Option<String>,
}

/// A named model definition, referenced by `Step::model`.
#[derive(Clone, Debug, PartialEq, Eq)]
pub struct Model {
    pub name: String,
    /// Concrete model identifier.
    pub model: String,
    /// Reasoning-budget hint.
    pub thinking: String,
}

/// A named prompt, keyed by step name.
#[derive(Clone, Debug, PartialEq, Eq)]
pub struct Prompt {
    pub name: String,
    pub content: String,
}

/// A named script, referenced by `Step::script`.
#[derive(Clone, Debug, PartialEq, Eq)]
pub struct Script {
    pub name: String,
    pub content: String,
}

/// The application configuration.
#[derive(Clone, Debug, PartialEq, Eq)]
pub struct Config {
    pub version: String,
    /// Whether `prompt` output starts with the frontmatter block.
    pub show_frontmatter: bool,
    /// Ordered steps; the current step is the last whose artifact exists.
    pub steps: Vec<Step>,
    pub models: Vec<Model>,
    pub prompts: Vec<Prompt>,
    pub scripts: Vec<Script>,
}

/// A step as plain text.
pub struct StepView {
    pub name: Seq<char>,
    pub trigger: Seq<char>,
    pub model: Seq<char>,
    pub script: Option<Seq<char>>,
}

/// A model as plain text.
pub struct ModelView {
    pub name: Seq<char>,
    pub model: Seq<char>,
    pub thinking: Seq<char>,
}

/// A named text (prompt or script) as plain text.
pub struct NamedView {
    pub name: Seq<char>,
    pub content: Seq<char>,
}

/// A configuration as plain values.
pub struct ConfigView {
    pub version: Seq<char>,
    pub show_frontmatter: bool,
    pub steps: Seq<StepView>,
    pub models: Seq<ModelView>,
    pub prompts: Seq<NamedView>,
    pub scripts: Seq<NamedView>,
}

/// The view of an optional string.
pub open spec fn opt_view(o: Option<String>) -> Option<Seq<char>> {
    match o {
        Some(s) => Some(s@),
        None => None,
    }
}

impl View for Step {
    type V = StepView;

    open spec fn view(&self) -> StepView {
        StepView {
            name: self.name@,
            trigger: self.trigger_artifact@,
            model: self.model@,
            script: opt_view(self.script),
        }
    }
}

impl View for Model {
    type V = ModelView;

    open spec fn view(&self) -> ModelView {
        ModelView { name: self.name@, model: self.model@, thinking: self.thinking@ }
    }
}

impl View for Prompt {
    type V = NamedView;

    open spec fn view(&self) -> NamedView {
        NamedView { name: self.name@, content: self.content@ }
    }
}

impl View for Script {
    type V = NamedView;

    open spec fn view(&self) -> NamedView {
        NamedView { name: self.name@, content: self.content@ }
    }
}

impl View for Config {
    type V = ConfigView;

    open spec fn view(&self) -> ConfigView {
        ConfigView {
            version: self.version@,
            show_frontmatter: self.show_frontmatter,
            steps: self.steps@.map_values(|s: Step| s@),
            models: self.models@.map_values(|m: Model| m@),
            prompts: self.prompts@.map_values(|p: Prompt| p@),
            scripts: self.scripts@.map_values(|s: Script| s@),
        }
    }
}

/// The names of the steps, in order.
pub open spec fn step_names(c: ConfigView) -> Seq<Seq<char>> {
    c.steps.map_values(|s: StepView| s.name)
}

/// The names of the models, in order.
pub open spec fn model_names(c: ConfigView) -> Seq<Seq<char>> {
    c.models.map_values(|m: ModelView| m.name)
}

/// The names of the prompts, in order.
pub open spec fn prompt_names(c: ConfigView) -> Seq<Seq<char>> {
    c.prompts.map_values(|p: NamedView| p.name)
}

/// Index `j` repeats a name listed earlier.
pub open spec fn repeats_earlier(names: Seq<Seq<char>>, j: int) -> bool {
    exists|i: int| 0 <= i < j && names[i] == names[j]
}

/// The first name (by position) that repeats an earlier one.
pub open spec fn first_repeat(names: Seq<Seq<char>>) -> Option<int> {
    first_index(names.len() as int, |j: int| repeats_earlier(names, j))
}

/// Whether some name is blank.
pub open spec fn has_blank(names: Seq<Seq<char>>) -> bool {
    exists|j: int| 0 <= j < names.len() && is_blank(#[trigger] names[j])
}

/// Step `j` has a non-empty trigger already used by an earlier step.
pub open spec fn trigger_repeats(steps: Seq<StepView>, j: int) -> bool {
    steps[j].trigger.len() > 0 && exists|i: int| 0 <= i < j && steps[i].trigger == steps[j].trigger
}

/// The names of the default steps (empty trigger), in order.
pub open spec fn default_names(steps: Seq<StepView>) -> Seq<Seq<char>>
    decreases steps.len(),
{
    if steps.len() == 0 {
        Seq::empty()
    } else {
        let init = default_names(steps.drop_last());
        if steps.last().trigger.len() == 0 {
            init.push(steps.last().name)
        } else {
            init
        }
    }
}

/// `names` joined by `sep`.
pub open spec fn joined(names: Seq<Seq<char>>, sep: Seq<char>) -> Seq<char>
    decreases names.len(),
{
    if names.len() == 0 {
        Seq::empty()
    } else if names.len() == 1 {
        names[0]
    } else {
        joined(names.drop_last(), sep) + sep + names.last()
    }
}

/// The message for a repeated name in a section.
pub open spec fn duplicate_message(name: Seq<char>, section: Seq<char>) -> Seq<char> {
    "duplicate name "@ + debug_str(name) + " in ["@ + section + "]"@
}

/// The message for a blank name in a section.
pub open spec fn blank_message(section: Seq<char>) -> Seq<char> {
    "["@ + section + "] contains an entry with an empty name"@
}

/// Validation failure for a repeated name, checking steps, prompts and
/// models in that order.
pub open spec fn duplicate_failure(c: ConfigView) -> Option<Seq<char>> {
    if first_repeat(step_names(c)) is Some {
        Some(duplicate_message(step_names(c)[first_repeat(step_names(c))->0], "steps"@))
    } else if first_repeat(prompt_names(c)) is Some {
        Some(duplicate_message(prompt_names(c)[first_repeat(prompt_names(c))->0], "prompts"@))
    } else if first_repeat(model_names(c)) is Some {
        Some(duplicate_message(model_names(c)[first_repeat(model_names(c))->0], "models"@))
    } else {
        None
    }
}

/// Validation failure for a blank name, checking steps, prompts and models
/// in that order.
pub open spec fn blank_failure(c: ConfigView) -> Option<Seq<char>> {
    if has_blank(step_names(c)) {
        Some(blank_message("steps"@))
    } else if has_blank(prompt_names(c)) {
        Some(blank_message("prompts"@))
    } else if has_blank(model_names(c)) {
        Some(blank_message("models"@))
    } else {
        None
    }
}

/// The first step with a blank model reference.
pub open spec fn first_blank_model(c: ConfigView) -> Option<int> {
    first_index(c.steps.len() as int, |j: int| is_blank(c.steps[j].model))
}

/// The first step whose non-empty trigger repeats an earlier step's.
pub open spec fn first_repeated_trigger(c: ConfigView) -> Option<int> {
    first_index(c.steps.len() as int, |j: int| trigger_repeats(c.steps, j))
}

/// The first step without a prompt of the same name.
pub open spec fn first_missing_prompt(c: ConfigView) -> Option<int> {
    first_index(c.steps.len() as int, |j: int| !prompt_names(c).contains(c.steps[j].name))
}

/// The first step whose model reference names no model.
pub open spec fn first_missing_model(c: ConfigView) -> Option<int> {
    first_index(c.steps.len() as int, |j: int| !model_names(c).contains(c.steps[j].model))
}

/// The message for more than one default step.
pub open spec fn defaults_message(names: Seq<Seq<char>>) -> Seq<char> {
    decimal(names.len()) + " steps have an empty trigger artifact (at most one default step is allowed): "@
        + joined(names, ", "@)
}

/// The first rule a configuration breaks, in the fixed order version,
/// duplicate name, empty name, empty model, duplicate trigger, multiple
/// default, missing prompt, missing model; `None` when it breaks none.
pub open spec fn validation_error(c: ConfigView) -> Option<ErrorView> {
    if c.version != CONFIG_VERSION@ {
        Some(
            error_of(
                "config:version"@,
                "unsupported config version "@ + debug_str(c.version) + " (expected "@ + debug_str(
                    CONFIG_VERSION@,
                ) + ")"@,
            ),
        )
    } else if duplicate_failure(c) is Some {
        Some(error_of("config:duplicate-name"@, duplicate_failure(c)->0))
    } else if blank_failure(c) is Some {
        Some(error_of("config:empty-name"@, blank_failure(c)->0))
    } else if first_blank_model(c) is Some {
        Some(
            error_of(
                "config:empty-model"@,
                "step "@ + debug_str(c.steps[first_blank_model(c)->0].name)
                    + " has an empty model reference"@,
            ),
        )
    } else if first_repeated_trigger(c) is Some {
        Some(
            error_of(
                "config:duplicate-trigger"@,
                "trigger artifact "@ + debug_str(c.steps[first_repeated_trigger(c)->0].trigger)
                    + " is used by more than one step"@,
            ),
        )
    } else if default_names(c.steps).len() > 1 {
        Some(error_of("config:multiple-default"@, defaults_message(default_names(c.steps))))
    } else if first_missing_prompt(c) is Some {
        Some(
            error_of(
                "config:missing-prompt"@,
                "step "@ + debug_str(c.steps[first_missing_prompt(c)->0].name)
                    + " has no matching prompt"@,
            ),
        )
    } else if first_missing_model(c) is Some {
        let s = c.steps[first_missing_model(c)->0];
        Some(
            error_of(
                "config:missing-model"@,
                "step "@ + debug_str(s.name) + " references unknown model "@ + debug_str(s.model),
            ),
        )
    } else {
        None
    }
}

/// No two entries of `names` are equal.
pub open spec fn distinct(names: Seq<Seq<char>>) -> bool {
    forall|i: int, j: int| 0 <= i < j < names.len() ==> names[i] != names[j]
}

/// A consistent configuration: the supported version; unique, non-blank
/// names in steps, prompts and models; a non-blank model reference on every
/// step; distinct non-empty triggers; at most one default step; and for
/// every step a prompt of its name and a model of its reference.
pub open spec fn consistent(c: ConfigView) -> bool {
    &&& c.version == CONFIG_VERSION@
    &&& distinct(step_names(c))
    &&& distinct(prompt_names(c))
    &&& distinct(model_names(c))
    &&& !has_blank(step_names(c))
    &&& !has_blank(prompt_names(c))
    &&& !has_blank(model_names(c))
    &&& forall|j: int| 0 <= j < c.steps.len() ==> !is_blank(#[trigger] c.steps[j].model)
    &&& forall|i: int, j: int|
        0 <= i < j < c.steps.len() && c.steps[j].trigger.len() > 0 ==> c.steps[i].trigger
            != c.steps[j].trigger
    &&& default_names(c.steps).len() <= 1
    &&& forall|j: int|
        0 <= j < c.steps.len() ==> prompt_names(c).contains(#[trigger] c.steps[j].name)
    &&& forall|j: int| 0 <= j < c.steps.len() ==> model_names(c).contains(#[trigger] c.steps[j].model)
}

/// `true`: the serde default of `Config::show_frontmatter`.
pub fn default_true() -> (r: bool)
    ensures
        r,
{
    true
}

impl Default for Config {
    /// The default configuration: the supported version, frontmatter shown,
    /// and no steps, models, prompts or scripts.
    fn default() -> (r: Config)
        ensures
            r@.version == CONFIG_VERSION@,
            r@.show_frontmatter,
            r@.steps.len() == 0,
            r@.models.len() == 0,
            r@.prompts.len() == 0,
            r@.scripts.len() == 0,
    {
        Config {
            version: owned(CONFIG_VERSION),
            show_frontmatter: true,
            steps: Vec::new(),
            models: Vec::new(),
            prompts: Vec::new(),
            scripts: Vec::new(),
        }
    }
}

/// The views of a list of strings.
pub open spec fn names_view(v: Seq<String>) -> Seq<Seq<char>> {
    v.map_values(|s: String| s@)
}

/// Whether `key` is among `names`.
pub fn has_name(names: &Vec<String>, key: &String) -> (r: bool)
    ensures
        r == names_view(names@).contains(key@),
{
    let ghost nv = names_view(names@);
    let n = names.len();
    let mut i: usize = 0;
    while i < n
        invariant
            n == names@.len(),
            nv == names_view(names@),
            i <= n,
            forall|k: int| 0 <= k < i ==> nv[k] != key@,
        decreases n - i,
    {
        if names[i] == *key {
            assert(nv[i as int] == key@);
            return true;
        }
        i = i + 1;
    }
    proof {
        if nv.contains(key@) {
            let k = choose|k: int| 0 <= k < nv.len() && nv[k] == key@;
            assert(nv[k] != key@);
        }
    }
    false
}

/// A message naming the first repeated name of `section`, if any.
fn duplicated_name(names: &Vec<String>, section: &str) -> (r: Option<String>)
    ensures
        first_repeat(names_view(names@)) matches Some(j) ==> (r matches Some(m) && m@
            == duplicate_message(names_view(names@)[j], section@)),
        first_repeat(names_view(names@)) is None ==> r is None,
{
    let ghost nv = names_view(names@);
    let ghost p = |j: int| repeats_earlier(nv, j);
    let n = names.len();
    let mut j: usize = 0;
    while j < n
        invariant
            n == names@.len(),
            nv == names_view(names@),
            p == (|j: int| repeats_earlier(nv, j)),
            j <= n,
            forall|k: int| 0 <= k < j ==> !#[trigger] p(k),
        decreases n - j,
    {
        let mut i: usize = 0;
        while i < j
            invariant
                n == names@.len(),
                nv == names_view(names@),
                j < n,
                i <= j,
                p == (|j: int| repeats_earlier(nv, j)),
                forall|k: int| 0 <= k < j ==> !#[trigger] p(k),
                forall|k: int| 0 <= k < i ==> nv[k] != nv[j as int],
            decreases j - i,
        {
            if names[i] == names[j] {
                proof {
                    assert(nv[i as int] == nv[j as int]);
                    assert(repeats_earlier(nv, j as int));
                    assert(p(j as int));
                    lemma_first_index_is(n as int, p, j as int);
                }
                let mut m = cat("duplicate name ", debug_quoted(names[j].as_str()).as_str());
                m.append(" in [");
                m.append(section);
                m.append("]");
                assert(m@ =~= duplicate_message(nv[j as int], section@));
                return Some(m);
            }
            i = i + 1;
        }
        assert(!p(j as int));
        j = j + 1;
    }
    proof {
        lemma_first_index_none(n as int, p);
    }
    None
}

/// A message naming `section` when one of its names is blank.
fn empty_name(names: &Vec<String>, section: &str) -> (r: Option<String>)
    ensures
        has_blank(names_view(names@)) ==> (r matches Some(m) && m@ == blank_message(section@)),
        !has_blank(names_view(names@)) ==> r is None,
{
    let ghost nv = names_view(names@);
    let n = names.len();
    let mut j: usize = 0;
    while j < n
        invariant
            n == names@.len(),
            nv == names_view(names@),
            j <= n,
            forall|k: int| 0 <= k < j ==> !is_blank(#[trigger] nv[k]),
        decreases n - j,
    {
        if blank(names[j].as_str()) {
            assert(is_blank(nv[j as int]));
            let mut m = cat("[", section);
            m.append("] contains an entry with an empty name");
            assert(m@ =~= blank_message(section@));
            return Some(m);
        }
        j = j + 1;
    }
    None
}

impl Config {
    /// The names of the steps.
    fn step_name_list(&self) -> (r: Vec<String>)
        ensures
            names_view(r@) == step_names(self@),
    {
        let mut r: Vec<String> = Vec::new();
        let n = self.steps.len();
        let mut i: usize = 0;
        while i < n
            invariant
                n == self.steps@.len(),
                i <= n,
                names_view(r@) =~= step_names(self@).take(i as int),
            decreases n - i,
        {
            let ghost before = r@;
            r.push(self.steps[i].name.clone());
            proof {
                assert(names_view(r@) =~= names_view(before).push(self.steps@[i as int].name@));
                assert(step_names(self@).take(i + 1) =~= step_names(self@).take(i as int).push(
                    self.steps@[i as int].name@,
                ));
            }
            i = i + 1;
        }
        assert(step_names(self@).take(n as int) =~= step_names(self@));
        r
    }

    /// The names of the models.
    fn model_name_list(&self) -> (r: Vec<String>)
        ensures
            names_view(r@) == model_names(self@),
    {
        let mut r: Vec<String> = Vec::new();
        let n = self.models.len();
        let mut i: usize = 0;
        while i < n
            invariant
                n == self.models@.len(),
                i <= n,
                names_view(r@) =~= model_names(self@).take(i as int),
            decreases n - i,
        {
            let ghost before = r@;
            r.push(self.models[i].name.clone());
            proof {
                assert(names_view(r@) =~= names_view(before).push(self.models@[i as int].name@));
                assert(model_names(self@).take(i + 1) =~= model_names(self@).take(i as int).push(
                    self.models@[i as int].name@,
                ));
            }
            i = i + 1;
        }
        assert(model_names(self@).take(n as int) =~= model_names(self@));
        r
    }

    /// The names of the prompts.
    fn prompt_name_list(&self) -> (r: Vec<String>)
        ensures
            names_view(r@) == prompt_names(self@),
    {
        let mut r: Vec<String> = Vec::new();
        let n = self.prompts.len();
        let mut i: usize = 0;
        while i < n
            invariant
                n == self.prompts@.len(),
                i <= n,
                names_view(r@) =~= prompt_names(self@).take(i as int),
            decreases n - i,
        {
            let ghost before = r@;
            r.push(self.prompts[i].name.clone());
            proof {
                assert(names_view(r@) =~= names_view(before).push(self.prompts@[i as int].name@));
                assert(prompt_names(self@).take(i + 1) =~= prompt_names(self@).take(i as int).push(
                    self.prompts@[i as int].name@,
                ));
            }
            i = i + 1;
        }
        assert(prompt_names(self@).take(n as int) =~= prompt_names(self@));
        r
    }
}

/// `names` joined by `sep`.
fn join_names(names: &Vec<String>, sep: &str) -> (r: String)
    ensures
        r@ == joined(names_view(names@), sep@),
{
    let ghost nv = names_view(names@);
    let n = names.len();
    let mut r = String::new();
    let mut i: usize = 0;
    while i < n
        invariant
            n == names@.len(),
            nv == names_view(names@),
            i <= n,
            r@ == joined(nv.take(i as int), sep@),
        decreases n - i,
    {
        proof {
            assert(nv.take(i + 1).drop_last() =~= nv.take(i as int));
        }
        if i > 0 {
            r.append(sep);
        }
        r.append(names[i].as_str());
        proof {
            if i == 0 {
                assert(r@ =~= nv.take(1)[0]);
            } else {
                assert(r@ =~= joined(nv.take(i as int), sep@) + sep@ + nv.take(i + 1).last());
            }
        }
        i = i + 1;
    }
    assert(nv.take(n as int) =~= nv);
    r
}

impl Config {
    /// The message for the first step with a blank model reference, if any.
    fn blank_model_failure(&self) -> (r: Option<String>)
        ensures
            first_blank_model(self@) matches Some(j) ==> (r matches Some(m) && m@ == "step "@
                + debug_str(self@.steps[j].name) + " has an empty model reference"@),
            first_blank_model(self@) is None ==> r is None,
    {
        let ghost c = self@;
        let ghost p = |j: int| is_blank(c.steps[j].model);
        let n = self.steps.len();
        let mut j: usize = 0;
        while j < n
            invariant
                n == self.steps@.len(),
                c == self@,
                p == (|j: int| is_blank(c.steps[j].model)),
                j <= n,
                forall|k: int| 0 <= k < j ==> !#[trigger] p(k),
            decreases n - j,
        {
            if blank(self.steps[j].model.as_str()) {
                proof {
                    assert(p(j as int));
                    lemma_first_index_is(n as int, p, j as int);
                }
                let mut m = cat("step ", debug_quoted(self.steps[j].name.as_str()).as_str());
                m.append(" has an empty model reference");
                return Some(m);
            }
            j = j + 1;
        }
        proof {
            lemma_first_index_none(n as int, p);
        }
        None
    }

    /// The message for the first step whose non-empty trigger repeats an
    /// earlier one, if any.
    fn repeated_trigger_failure(&self) -> (r: Option<String>)
        ensures
            first_repeated_trigger(self@) matches Some(j) ==> (r matches Some(m) && m@
                == "trigger artifact "@ + debug_str(self@.steps[j].trigger)
                + " is used by more than one step"@),
            first_repeated_trigger(self@) is None ==> r is None,
    {
        let ghost c = self@;
        let ghost p = |j: int| trigger_repeats(c.steps, j);
        let n = self.steps.len();
        let mut j: usize = 0;
        while j < n
            invariant
                n == self.steps@.len(),
                c == self@,
                p == (|j: int| trigger_repeats(c.steps, j)),
                j <= n,
                forall|k: int| 0 <= k < j ==> !#[trigger] p(k),
            decreases n - j,
        {
            if !self.steps[j].trigger_artifact.as_str().is_empty() {
                let mut i: usize = 0;
                while i < j
                    invariant
                        n == self.steps@.len(),
                        c == self@,
                        j < n,
                        i <= j,
                        c.steps[j as int].trigger.len() > 0,
                        p == (|j: int| trigger_repeats(c.steps, j)),
                        forall|k: int| 0 <= k < j ==> !#[trigger] p(k),
                        forall|k: int| 0 <= k < i ==> c.steps[k].trigger != c.steps[j as int].trigger,
                    decreases j - i,
                {
                    if self.steps[i].trigger_artifact == self.steps[j].trigger_artifact {
                        proof {
                            assert(c.steps[i as int].trigger == c.steps[j as int].trigger);
                            assert(trigger_repeats(c.steps, j as int));
                            assert(p(j as int));
                            lemma_first_index_is(n as int, p, j as int);
                        }
                        let mut m = cat(
                            "trigger artifact ",
                            debug_quoted(self.steps[j].trigger_artifact.as_str()).as_str(),
                        );
                        m.append(" is used by more than one step");
                        return Some(m);
                    }
                    i = i + 1;
                }
            }
            assert(!p(j as int));
            j = j + 1;
        }
        proof {
            lemma_first_index_none(n as int, p);
        }
        None
    }

    /// The names of the default steps, in order.
    fn default_name_list(&self) -> (r: Vec<String>)
        ensures
            names_view(r@) == default_names(self@.steps),
    {
        let ghost c = self@;
        let mut r: Vec<String> = Vec::new();
        let n = self.steps.len();
        let mut i: usize = 0;
        while i < n
            invariant
                n == self.steps@.len(),
                c == self@,
                i <= n,
                names_view(r@) =~= default_names(c.steps.take(i as int)),
            decreases n - i,
        {
            proof {
                assert(c.steps.take(i + 1).drop_last() =~= c.steps.take(i as int));
            }
            if self.steps[i].trigger_artifact.as_str().is_empty() {
                let ghost before = r@;
                r.push(self.steps[i].name.clone());
                proof {
                    assert(names_view(r@) =~= names_view(before).push(c.steps[i as int].name));
                }
            }
            i = i + 1;
        }
        assert(c.steps.take(n as int) =~= c.steps);
        r
    }

    /// The message for more than one default step, if there is more than
    /// one.
    fn defaults_failure(&self) -> (r: Option<String>)
        ensures
            default_names(self@.steps).len() > 1 ==> (r matches Some(m) && m@ == defaults_message(
                default_names(self@.steps),
            )),
            default_names(self@.steps).len() <= 1 ==> r is None,
    {
        let names = self.default_name_list();
        if names.len() > 1 {
            let mut m = decimal_string(names.len());
            m.append(" steps have an empty trigger artifact (at most one default step is allowed): ");
            let list = join_names(&names, ", ");
            m.append(list.as_str());
            Some(m)
        } else {
            None
        }
    }

    /// The message for the first step without a prompt of its name, if any.
    fn missing_prompt_failure(&self, prompts: &Vec<String>) -> (r: Option<String>)
        requires
            names_view(prompts@) == prompt_names(self@),
        ensures
            first_missing_prompt(self@) matches Some(j) ==> (r matches Some(m) && m@ == "step "@
                + debug_str(self@.steps[j].name) + " has no matching prompt"@),
            first_missing_prompt(self@) is None ==> r is None,
    {
        let ghost c = self@;
        let ghost p = |j: int| !prompt_names(c).contains(c.steps[j].name);
        let n = self.steps.len();
        let mut j: usize = 0;
        while j < n
            invariant
                n == self.steps@.len(),
                c == self@,
                names_view(prompts@) == prompt_names(c),
                p == (|j: int| !prompt_names(c).contains(c.steps[j].name)),
                j <= n,
                forall|k: int| 0 <= k < j ==> !#[trigger] p(k),
            decreases n - j,
        {
            if !has_name(prompts, &self.steps[j].name) {
                proof {
                    assert(p(j as int));
                    lemma_first_index_is(n as int, p, j as int);
                }
                let mut m = cat("step ", debug_quoted(self.steps[j].name.as_str()).as_str());
                m.append(" has no matching prompt");
                return Some(m);
            }
            j = j + 1;
        }
        proof {
            lemma_first_index_none(n as int, p);
        }
        None
    }

    /// The message for the first step whose model reference names no model,
    /// if any.
    fn missing_model_failure(&self, models: &Vec<String>) -> (r: Option<String>)
        requires
            names_view(models@) == model_names(self@),
        ensures
            first_missing_model(self@) matches Some(j) ==> (r matches Some(m) && m@ == "step "@
                + debug_str(self@.steps[j].name) + " references unknown model "@ + debug_str(
                self@.steps[j].model,
            )),
            first_missing_model(self@) is None ==> r is None,
    {
        let ghost c = self@;
        let ghost p = |j: int| !model_names(c).contains(c.steps[j].model);
        let n = self.steps.len();
        let mut j: usize = 0;
        while j < n
            invariant
                n == self.steps@.len(),
                c == self@,
                names_view(models@) == model_names(c),
                p == (|j: int| !model_names(c).contains(c.steps[j].model)),
                j <= n,
                forall|k: int| 0 <= k < j ==> !#[trigger] p(k),
            decreases n - j,
        {
            if !has_name(models, &self.steps[j].model) {
                proof {
                    assert(p(j as int));
                    lemma_first_index_is(n as int, p, j as int);
                }
                let mut m = cat("step ", debug_quoted(self.steps[j].name.as_str()).as_str());
                m.append(" references unknown model ");
                m.append(debug_quoted(self.steps[j].model.as_str()).as_str());
                return Some(m);
            }
            j = j + 1;
        }
        proof {
            lemma_first_index_none(n as int, p);
        }
        None
    }
}

/// The error with tag `source` and message `message`.
fn failure(source: &str, message: String) -> (r: Error)
    ensures
        r@ == error_of(source@, message@),
{
    Error { source: owned(source), message }
}

impl Config {
    /// Validate this configuration, failing with the first rule it breaks
    /// in the fixed order version, duplicate name, empty name, empty model,
    /// duplicate trigger, multiple default, missing prompt, missing model.
    pub fn validate(&self) -> (r: Result<(), Error>)
        ensures
            r is Ok <==> validation_error(self@) is None,
            r matches Err(e) ==> validation_error(self@) == Some(e@),
            r is Ok <==> consistent(self@),
    {
        proof {
            lemma_validation_consistent(self@);
        }
        if self.version != owned(CONFIG_VERSION) {
            let mut m = cat("unsupported config version ", debug_quoted(self.version.as_str()).as_str());
            m.append(" (expected ");
            m.append(debug_quoted(CONFIG_VERSION).as_str());
            m.append(")");
            return Err(failure("config:version", m));
        }
        let steps = self.step_name_list();
        let prompts = self.prompt_name_list();
        let models = self.model_name_list();
        if let Some(m) = duplicated_name(&steps, "steps") {
            return Err(failure("config:duplicate-name", m));
        }
        if let Some(m) = duplicated_name(&prompts, "prompts") {
            return Err(failure("config:duplicate-name", m));
        }
        if let Some(m) = duplicated_name(&models, "models") {
            return Err(failure("config:duplicate-name", m));
        }
        if let Some(m) = empty_name(&steps, "steps") {
            return Err(failure("config:empty-name", m));
        }
        if let Some(m) = empty_name(&prompts, "prompts") {
            return Err(failure("config:empty-name", m));
        }
        if let Some(m) = empty_name(&models, "models") {
            return Err(failure("config:empty-name", m));
        }
        if let Some(m) = self.blank_model_failure() {
            return Err(failure("config:empty-model", m));
        }
        if let Some(m) = self.repeated_trigger_failure() {
            return Err(failure("config:duplicate-trigger", m));
        }
        if let Some(m) = self.defaults_failure() {
            return Err(failure("config:multiple-default", m));
        }
        if let Some(m) = self.missing_prompt_failure(&prompts) {
            return Err(failure("config:missing-prompt", m));
        }
        if let Some(m) = self.missing_model_failure(&models) {
            return Err(failure("config:missing-model", m));
        }
        Ok(())
    }
}

/// No repeated name exactly when the names are distinct.
pub proof fn lemma_first_repeat_distinct(names: Seq<Seq<char>>)
    ensures
        first_repeat(names) is None <==> distinct(names),
{
    let p = |j: int| repeats_earlier(names, j);
    lemma_first_index(names.len() as int, p);
    if first_repeat(names) is None {
        assert forall|i: int, j: int| 0 <= i < j < names.len() implies names[i] != names[j] by {
            assert(!p(j));
        }
    } else {
        let j = first_repeat(names)->0;
        assert(p(j));
    }
}

/// Validation finds no error exactly when the configuration is consistent.
pub proof fn lemma_validation_consistent(c: ConfigView)
    ensures
        validation_error(c) is None <==> consistent(c),
{
    lemma_first_repeat_distinct(step_names(c));
    lemma_first_repeat_distinct(prompt_names(c));
    lemma_first_repeat_distinct(model_names(c));
    let n = c.steps.len() as int;
    let pb = |j: int| is_blank(c.steps[j].model);
    let pt = |j: int| trigger_repeats(c.steps, j);
    let pp = |j: int| !prompt_names(c).contains(c.steps[j].name);
    let pm = |j: int| !model_names(c).contains(c.steps[j].model);
    lemma_first_index(n, pb);
    lemma_first_index(n, pt);
    lemma_first_index(n, pp);
    lemma_first_index(n, pm);
    if validation_error(c) is None {
        assert forall|j: int| 0 <= j < n implies !is_blank(#[trigger] c.steps[j].model) by {
            assert(!pb(j));
        }
        assert forall|i: int, j: int|
            0 <= i < j < n && c.steps[j].trigger.len() > 0 implies c.steps[i].trigger
            != c.steps[j].trigger by {
            assert(!pt(j));
        }
        assert forall|j: int| 0 <= j < n implies prompt_names(c).contains(
            #[trigger] c.steps[j].name,
        ) by {
            assert(!pp(j));
        }
        assert forall|j: int| 0 <= j < n implies model_names(c).contains(
            #[trigger] c.steps[j].model,
        ) by {
            assert(!pm(j));
        }
    }
    if consistent(c) {
        if first_blank_model(c) is Some {
            assert(pb(first_blank_model(c)->0));
        }
        if first_repeated_trigger(c) is Some {
            let j = first_repeated_trigger(c)->0;
            assert(pt(j));
        }
        if first_missing_prompt(c) is Some {
            assert(pp(first_missing_prompt(c)->0));
        }
        if first_missing_model(c) is Some {
            assert(pm(first_missing_model(c)->0));
        }
    }
}

impl Step {
    /// A copy of this step.
    pub fn duplicate(&self) -> (r: Step)
        ensures
            r@ == self@,
    {
        let script = match &self.script {
            Some(s) => Some(s.clone()),
            None => None,
        };
        Step {
            name: self.name.clone(),
            trigger_artifact: self.trigger_artifact.clone(),
            model: self.model.clone(),
            script,
        }
    }
}

impl Model {
    /// A copy of this model.
    pub fn duplicate(&self) -> (r: Model)
        ensures
            r@ == self@,
    {
        Model { name: self.name.clone(), model: self.model.clone(), thinking: self.thinking.clone() }
    }
}

} // verus!
