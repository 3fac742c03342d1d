//! The manifest itself and the run summary: steps run in declared order,
//! every step counts as processed, and a step whose condition is unmet is
//! additionally counted as skipped.

use crate::argmap::ArgMap;
use crate::args::TemplateArg;
use crate::language::{spec_language_name, Language};
use crate::step::{spec_check_condition, TemplateStep};
use crate::strutil::{join_with, spec_join_with};
use vstd::prelude::*;
use vstd::string::StringExecFns;

verus! {

/// A reference to a template this one extends; the core parses but does not
/// process these.
pub struct TemplateExtend {
    pub template_id: String,
    pub version: String,
    pub args: Vec<ExtendArg>,
}

/// A fixed argument value an extension reference carries.
pub struct ExtendArg {
    pub name: String,
    pub value: String,
}

/// The declarative manifest a scaffold is built from.
pub struct Template {
    pub schema: Option<String>,
    pub name: String,
    pub version: String,
    pub description: String,
    pub author: String,
    pub language: Language,
    pub tags: Vec<String>,
    pub args: Vec<TemplateArg>,
    pub extends: Vec<TemplateExtend>,
    pub steps: Vec<TemplateStep>,
}

/// How many of the steps from index `i` on the values leave skipped.
pub open spec fn spec_skip_count(steps: Seq<TemplateStep>, m: Map<Seq<char>, Seq<char>>, i: int) -> int
    recommends
        0 <= i,
    decreases steps.len() - i,
{
    if i < 0 || i >= steps.len() {
        0
    } else {
        (if !spec_check_condition(&steps[i], m) {
            1int
        } else {
            0int
        }) + spec_skip_count(steps, m, i + 1)
    }
}

/// Whether every key an argument depends on is already bound.
pub open spec fn spec_deps_satisfied(arg: &TemplateArg, m: Map<Seq<char>, Seq<char>>) -> bool {
    match arg.depends_on {
        Some(deps) => forall|i: int|
            0 <= i < deps@.len() ==> m.contains_key((#[trigger] deps@[i])@),
        None => true,
    }
}

impl Template {
    /// The counts a full run reports: every step counts as processed, and
    /// each one whose condition the values do not meet is also counted as
    /// skipped.
    pub fn run_summary(&self, args: &ArgMap) -> (r: (usize, usize))
        ensures
            r.0 == self.steps@.len(),
            r.1 == spec_skip_count(self.steps@, args@, 0),
            r.1 <= r.0,
    {
        let mut skipped: usize = 0;
        let mut i: usize = 0;
        while i < self.steps.len()
            invariant
                i <= self.steps@.len(),
                skipped <= i,
                spec_skip_count(self.steps@, args@, 0) == skipped + spec_skip_count(
                    self.steps@,
                    args@,
                    i as int,
                ),
            decreases self.steps@.len() - i,
        {
            if !self.steps[i].check_condition(args) {
                skipped = skipped + 1;
            }
            i = i + 1;
        }
        (self.steps.len(), skipped)
    }

    /// Whether an argument's declared dependencies are all bound, so that its
    /// prompt may be shown; an argument with an unmet dependency is passed
    /// over.
    pub fn deps_satisfied(&self, arg: &TemplateArg, values: &ArgMap) -> (r: bool)
        ensures
            r == spec_deps_satisfied(arg, values@),
    {
        if let Some(deps) = &arg.depends_on {
            let mut i: usize = 0;
            while i < deps.len()
                invariant
                    arg.depends_on matches Some(d) && d == *deps,
                    i <= deps@.len(),
                    forall|j: int| 0 <= j < i ==> values@.contains_key((#[trigger] deps@[j])@),
                decreases deps@.len() - i,
            {
                if !values.contains_key(deps[i].as_str()) {
                    return false;
                }
                i = i + 1;
            }
            true
        } else {
            true
        }
    }

    /// The labelled lines that describe this template: name, version,
    /// description, author, language, and — only when there are tags — the
    /// tags joined with commas. The caller prints them and the step count.
    pub fn info_lines(&self) -> (r: Vec<String>)
        ensures
            r.deep_view() == spec_info_lines(self),
    {
        let mut out: Vec<String> = Vec::new();
        let mut line = String::new();
        line.append("Name        : ");
        line.append(self.name.as_str());
        out.push(line);
        let mut line = String::new();
        line.append("Version     : ");
        line.append(self.version.as_str());
        out.push(line);
        let mut line = String::new();
        line.append("Description : ");
        line.append(self.description.as_str());
        out.push(line);
        let mut line = String::new();
        line.append("Author      : ");
        line.append(self.author.as_str());
        out.push(line);
        let mut line = String::new();
        line.append("Language    : ");
        let lang = self.language.display_name();
        line.append(lang.as_str());
        out.push(line);
        if self.tags.len() > 0 {
            let mut line = String::new();
            line.append("Tags        : ");
            let joined = join_with(&self.tags, ", ");
            line.append(joined.as_str());
            out.push(line);
        }
        proof {
            assert(out.deep_view() =~= spec_info_lines(self));
        }
        out
    }
}

/// The lines `info_lines` yields.
pub open spec fn spec_info_lines(t: &Template) -> Seq<Seq<char>> {
    let fixed = seq![
        "Name        : "@ + t.name@,
        "Version     : "@ + t.version@,
        "Description : "@ + t.description@,
        "Author      : "@ + t.author@,
        "Language    : "@ + spec_language_name(&t.language),
    ];
    if t.tags@.len() > 0 {
        fixed + seq!["Tags        : "@ + spec_join_with(t.tags.deep_view(), ", "@)]
    } else {
        fixed
    }
}

} // verus!
