//! Steps and their gating conditions: a boolean predicate tree over the
//! collected argument values decides whether a step runs, and a planner turns
//! each step into the concrete action the surrounding program performs.

use crate::argmap::ArgMap;
use crate::strutil::{
    contains_str,
    ends_with_str,
    list_contains,
    spec_contains,
    spec_ends_with,
    spec_split_trim,
    spec_starts_with,
    split_trim,
    starts_with_str,
    str_eq,
};
use crate::subst::{replace_args, spec_subst};
use crate::text::{apply_patch, spec_patch};
use vstd::prelude::*;

verus! {

/// How the leaves of a condition tree combine.
#[derive(Debug, Clone, Copy, PartialEq, Eq, Structural)]
pub enum LogicalOperator {
    And,
    Or,
}

/// The operator a condition tree combines its leaves with when the manifest
/// names none.
pub fn default_operator() -> (r: LogicalOperator)
    ensures
        r == LogicalOperator::And,
{
    LogicalOperator::And
}

/// The comparison a single condition leaf applies.
#[derive(Debug, Clone, Copy, PartialEq, Eq, Structural)]
pub enum ConditionOperator {
    Equals,
    NotEquals,
    Contains,
    StartsWith,
    EndsWith,
    In,
    NotIn,
}

/// One leaf: a field (an argument key), a comparison and a literal.
pub struct Condition {
    pub field: String,
    pub operator: ConditionOperator,
    pub value: String,
}

/// A condition tree: leaves combined under one logical operator.
pub struct Conditions {
    pub operator: LogicalOperator,
    pub conditions: Vec<Condition>,
}

/// What one leaf evaluates to over the value map: a leaf whose field is
/// unbound is false whatever its operator; `In`/`NotIn` split the field's
/// value on commas, trim the pieces and test membership of the literal.
pub open spec fn spec_condition_eval(c: Condition, m: Map<Seq<char>, Seq<char>>) -> bool {
    if !m.contains_key(c.field@) {
        false
    } else {
        let fv = m[c.field@];
        match c.operator {
            ConditionOperator::Equals => fv == c.value@,
            ConditionOperator::NotEquals => fv != c.value@,
            ConditionOperator::Contains => spec_contains(fv, c.value@),
            ConditionOperator::StartsWith => spec_starts_with(fv, c.value@),
            ConditionOperator::EndsWith => spec_ends_with(fv, c.value@),
            ConditionOperator::In => spec_split_trim(fv, seq![',']).contains(c.value@),
            ConditionOperator::NotIn => !spec_split_trim(fv, seq![',']).contains(c.value@),
        }
    }
}

/// What a tree evaluates to: under `And` every leaf must hold, under `Or` at
/// least one must.
pub open spec fn spec_conditions_eval(c: &Conditions, m: Map<Seq<char>, Seq<char>>) -> bool {
    match c.operator {
        LogicalOperator::And => forall|i: int|
            0 <= i < c.conditions@.len() ==> spec_condition_eval(#[trigger] c.conditions@[i], m),
        LogicalOperator::Or => exists|i: int|
            0 <= i < c.conditions@.len() && spec_condition_eval(#[trigger] c.conditions@[i], m),
    }
}

impl Condition {
    /// Evaluates this leaf against the collected values.
    pub fn evaluate(&self, args: &ArgMap) -> (r: bool)
        ensures
            r == spec_condition_eval(*self, args@),
    {
        let field_value = match args.get(self.field.as_str()) {
            Some(v) => v,
            None => {
                return false;
            },
        };
        match self.operator {
            ConditionOperator::Equals => str_eq(field_value.as_str(), self.value.as_str()),
            ConditionOperator::NotEquals => !str_eq(field_value.as_str(), self.value.as_str()),
            ConditionOperator::Contains => contains_str(field_value.as_str(), self.value.as_str()),
            ConditionOperator::StartsWith => starts_with_str(
                field_value.as_str(),
                self.value.as_str(),
            ),
            ConditionOperator::EndsWith => ends_with_str(field_value.as_str(), self.value.as_str()),
            ConditionOperator::In => {
                proof {
                    reveal_strlit(",");
                    assert(","@ =~= seq![',']);
                }
                let pieces = split_trim(field_value.as_str(), ",");
                let r = list_contains(&pieces, self.value.as_str());
                r
            },
            ConditionOperator::NotIn => {
                proof {
                    reveal_strlit(",");
                    assert(","@ =~= seq![',']);
                }
                let pieces = split_trim(field_value.as_str(), ",");
                let r = list_contains(&pieces, self.value.as_str());
                !r
            },
        }
    }
}

impl Conditions {
    /// Evaluates the whole tree against the collected values.
    pub fn evaluate(&self, args: &ArgMap) -> (r: bool)
        ensures
            r == spec_conditions_eval(self, args@),
    {
        match self.operator {
            LogicalOperator::And => {
                let mut i: usize = 0;
                while i < self.conditions.len()
                    invariant
                        i <= self.conditions@.len(),
                        self.operator == LogicalOperator::And,
                        forall|j: int|
                            0 <= j < i ==> spec_condition_eval(
                                #[trigger] self.conditions@[j],
                                args@,
                            ),
                    decreases self.conditions@.len() - i,
                {
                    if !self.conditions[i].evaluate(args) {
                        return false;
                    }
                    i = i + 1;
                }
                true
            },
            LogicalOperator::Or => {
                let mut i: usize = 0;
                while i < self.conditions.len()
                    invariant
                        i <= self.conditions@.len(),
                        self.operator == LogicalOperator::Or,
                        forall|j: int|
                            0 <= j < i ==> !spec_condition_eval(
                                #[trigger] self.conditions@[j],
                                args@,
                            ),
                    decreases self.conditions@.len() - i,
                {
                    if self.conditions[i].evaluate(args) {
                        return true;
                    }
                    i = i + 1;
                }
                false
            },
        }
    }
}

/// A leaf whose field the value map does not bind evaluates false, whatever
/// its comparison operator and literal.
pub proof fn lemma_missing_field_is_false(c: Condition, m: Map<Seq<char>, Seq<char>>)
    requires
        !m.contains_key(c.field@),
    ensures
        !spec_condition_eval(c, m),
{
}

/// An And-combination is true exactly when every leaf is true; an
/// Or-combination exactly when at least one leaf is.
pub proof fn lemma_and_or_evaluation(c: &Conditions, m: Map<Seq<char>, Seq<char>>)
    ensures
        c.operator == LogicalOperator::And ==> (spec_conditions_eval(c, m) <==> forall|i: int|
            0 <= i < c.conditions@.len() ==> spec_condition_eval(#[trigger] c.conditions@[i], m)),
        c.operator == LogicalOperator::Or ==> (spec_conditions_eval(c, m) <==> exists|i: int|
            0 <= i < c.conditions@.len() && spec_condition_eval(#[trigger] c.conditions@[i], m)),
{
}

/// The kind of work a step performs.
#[derive(Debug, Clone, Copy, PartialEq, Eq, Structural)]
pub enum StepType {
    Directory,
    File,
    Download,
    Command,
    Git,
    Modify,
}

/// The five line-oriented strategies of the text-patch engine.
#[derive(Debug, Clone, Copy, PartialEq, Eq, Structural)]
pub enum ModificationType {
    Append,
    Prepend,
    Replace,
    InsertAfter,
    InsertBefore,
}

/// One unit of scaffolding work from the manifest.
pub struct TemplateStep {
    pub id: String,
    pub description: String,
    pub path: String,
    pub step_type: StepType,
    pub content: Option<String>,
    pub conditions: Option<Conditions>,
    pub line_number: Option<usize>,
    pub modification_type: Option<ModificationType>,
    pub source: Option<String>,
    pub url: Option<String>,
    pub branch: Option<String>,
    pub package_manager: Option<String>,
    pub dependencies: Option<Vec<String>>,
    pub dev_dependencies: Option<Vec<String>>,
    pub template_engine: Option<String>,
    pub variables: Option<ArgMap>,
}

/// Whether a step's condition lets it run: a step without conditions always
/// runs.
pub open spec fn spec_check_condition(s: &TemplateStep, m: Map<Seq<char>, Seq<char>>) -> bool {
    match s.conditions {
        Some(c) => spec_conditions_eval(&c, m),
        None => true,
    }
}

/// The side effect a step asks the surrounding program to perform, with
/// every placeholder already substituted.
pub enum StepAction {
    /// Create the directory and its missing ancestors.
    CreateDir { path: String },
    /// Create parent directories and write the content, overwriting.
    WriteFile { path: String, content: String },
    /// Create parent directories, fetch the resource, write the raw bytes.
    Fetch { url: String, path: String },
    /// Run the command line through a system shell; a failure is not fatal.
    RunShell { command: String },
    /// Initialise a repository at the path, optionally on a named branch; a
    /// failure is not fatal.
    GitInit { path: String, branch: Option<String> },
    /// Read the file (absent means empty), hand the old content to
    /// `patched_content`, write the result back.
    PatchFile { path: String },
    /// Nothing to do: the step declares no content or url.
    Nothing,
}

impl TemplateStep {
    /// Whether the collected values meet this step's condition.
    pub fn check_condition(&self, args: &ArgMap) -> (r: bool)
        ensures
            r == spec_check_condition(self, args@),
    {
        if let Some(conditions) = &self.conditions {
            conditions.evaluate(args)
        } else {
            true
        }
    }

    /// Plans this step's side effect over the collected values. File,
    /// Download and Command steps without their content or url plan nothing
    /// and count as successful.
    pub fn action(&self, args: &ArgMap) -> (r: StepAction)
        ensures
            self.step_type == StepType::Directory ==> (r matches StepAction::CreateDir { path }
                && path@ == spec_subst(self.path@, args@)),
            self.step_type == StepType::File ==> match self.content {
                Some(c) => r matches StepAction::WriteFile { path, content } && path@ == spec_subst(
                    self.path@,
                    args@,
                ) && content@ == spec_subst(c@, args@),
                None => r is Nothing,
            },
            self.step_type == StepType::Download ==> match self.url {
                Some(u) => r matches StepAction::Fetch { url, path } && url@ == spec_subst(
                    u@,
                    args@,
                ) && path@ == spec_subst(self.path@, args@),
                None => r is Nothing,
            },
            self.step_type == StepType::Command ==> match self.content {
                Some(c) => r matches StepAction::RunShell { command } && command@ == spec_subst(
                    c@,
                    args@,
                ),
                None => r is Nothing,
            },
            self.step_type == StepType::Git ==> (r matches StepAction::GitInit { path, branch }
                && path@ == spec_subst(self.path@, args@) && branch.deep_view()
                == self.branch.deep_view()),
            self.step_type == StepType::Modify ==> (r matches StepAction::PatchFile { path }
                && path@ == spec_subst(self.path@, args@)),
    {
        let path = replace_args(self.path.as_str(), args);
        match self.step_type {
            StepType::Directory => StepAction::CreateDir { path },
            StepType::File => match &self.content {
                Some(c) => {
                    let content = replace_args(c.as_str(), args);
                    StepAction::WriteFile { path, content }
                },
                None => StepAction::Nothing,
            },
            StepType::Download => match &self.url {
                Some(u) => {
                    let url = replace_args(u.as_str(), args);
                    StepAction::Fetch { url, path }
                },
                None => StepAction::Nothing,
            },
            StepType::Command => match &self.content {
                Some(c) => {
                    let command = replace_args(c.as_str(), args);
                    StepAction::RunShell { command }
                },
                None => StepAction::Nothing,
            },
            StepType::Git => StepAction::GitInit { path, branch: self.branch.clone() },
            StepType::Modify => StepAction::PatchFile { path },
        }
    }

    /// The new file content a Modify step produces from the old: the step's
    /// content template is substituted and handed with the old content to the
    /// text-patch engine. A Modify step without a modification kind empties
    /// the file.
    pub fn patched_content(&self, existing: &str, args: &ArgMap) -> (r: String)
        ensures
            match self.modification_type {
                Some(mt) => r@ == spec_patch(
                    existing@,
                    spec_subst(spec_content_template(self), args@),
                    mt,
                    self.line_number,
                ),
                None => r@ == Seq::<char>::empty(),
            },
    {
        let content = match &self.content {
            Some(c) => replace_args(c.as_str(), args),
            None => {
                proof {
                    reveal_strlit("");
                    assert(""@ =~= Seq::<char>::empty());
                }
                replace_args("", args)
            },
        };
        match &self.modification_type {
            Some(mt) => apply_patch(existing, content.as_str(), mt, self.line_number),
            None => String::new(),
        }
    }
}

/// The content template of a step: its declared content, or empty when none
/// is declared.
pub open spec fn spec_content_template(s: &TemplateStep) -> Seq<char> {
    match s.content {
        Some(c) => c@,
        None => Seq::empty(),
    }
}

} // verus!
