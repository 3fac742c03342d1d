//! Argument declarations and the validator: a raw input string is checked
//! against the argument's declared type, enumerated choices, regex pattern
//! and multiplicity. Validation is a pure function — the surrounding program
//! owns the prompt-and-retry loop and re-asks on an error.

use crate::numeric::{ci_char, is_float_literal, spec_ci, spec_is_float_literal};
use crate::pattern::{regex_match, regex_try_match, regex_valid};
use crate::strutil::{
    contains_str,
    join_with,
    spec_contains,
    spec_join_with,
    spec_split_trim,
    spec_starts_with,
    split_trim,
    starts_with_str,
    str_eq,
};
use vstd::prelude::*;
use vstd::string::{StrSliceExecFns, StringExecFns};

verus! {

/// The declared type of an argument's value.
#[derive(Debug, Clone, Copy, PartialEq, Eq, Structural)]
pub enum ArgType {
    String,
    Number,
    Boolean,
    Enum,
    Path,
    Email,
    Url,
}

/// One declared choice of an Enum or multi-select argument.
pub struct ArgValue {
    pub value: String,
    pub description: String,
    pub details: Option<String>,
}

/// The declaration of one operator-supplied value: its type, constraints and
/// presentation.
pub struct TemplateArg {
    pub name: String,
    pub key: String,
    pub description: Option<String>,
    pub long_description: Option<String>,
    pub arg_type: ArgType,
    pub default: String,
    pub values: Option<Vec<ArgValue>>,
    pub required: bool,
    pub pattern: Option<String>,
    pub group: Option<String>,
    pub depends_on: Option<Vec<String>>,
    pub multiple: bool,
    pub delimiter: Option<String>,
}

/// Case-insensitively `true` or `false`.
pub open spec fn spec_bool_ok(v: Seq<char>) -> bool {
    ||| (v.len() == 4 && spec_ci(v[0], 't') && spec_ci(v[1], 'r') && spec_ci(v[2], 'u') && spec_ci(
        v[3],
        'e',
    ))
    ||| (v.len() == 5 && spec_ci(v[0], 'f') && spec_ci(v[1], 'a') && spec_ci(v[2], 'l') && spec_ci(
        v[3],
        's',
    ) && spec_ci(v[4], 'e'))
}

fn is_bool_literal(v: &str) -> (r: bool)
    ensures
        r == spec_bool_ok(v@),
{
    let n = v.unicode_len();
    if n == 4 {
        ci_char(v.get_char(0), 't') && ci_char(v.get_char(1), 'r') && ci_char(v.get_char(2), 'u')
            && ci_char(v.get_char(3), 'e')
    } else if n == 5 {
        ci_char(v.get_char(0), 'f') && ci_char(v.get_char(1), 'a') && ci_char(v.get_char(2), 'l')
            && ci_char(v.get_char(3), 's') && ci_char(v.get_char(4), 'e')
    } else {
        false
    }
}

/// The type-specific rule a single value must meet: a Number parses as a
/// 64-bit float, a Boolean is `true`/`false` in any case, an Enum value
/// equals one declared choice's value, an Email holds an `@`, a Url starts
/// with `http://` or `https://`, a Path holds no `..`; a String has no rule.
pub open spec fn spec_type_ok(arg: &TemplateArg, v: Seq<char>) -> bool {
    match arg.arg_type {
        ArgType::Number => spec_is_float_literal(v),
        ArgType::Boolean => spec_bool_ok(v),
        ArgType::Enum => match arg.values {
            Some(vals) => exists|i: int|
                0 <= i < vals@.len() && (#[trigger] vals@[i]).value@ == v,
            None => true,
        },
        ArgType::Email => spec_contains(v, "@"@),
        ArgType::Url => spec_starts_with(v, "http://"@) || spec_starts_with(v, "https://"@),
        ArgType::Path => !spec_contains(v, ".."@),
        ArgType::String => true,
    }
}

/// The declared pattern, when there is one, must compile and match the value.
pub open spec fn spec_pattern_ok(arg: &TemplateArg, v: Seq<char>) -> bool {
    match arg.pattern {
        Some(p) => regex_valid(p@) && regex_match(p@, v),
        None => true,
    }
}

/// A single value passes its type rule and its pattern.
pub open spec fn spec_single_ok(arg: &TemplateArg, v: Seq<char>) -> bool {
    spec_type_ok(arg, v) && spec_pattern_ok(arg, v)
}

/// The delimiter a multiple-valued argument splits on; a comma when the
/// manifest names none.
pub open spec fn spec_delimiter(arg: &TemplateArg) -> Seq<char> {
    match arg.delimiter {
        Some(d) => d@,
        None => ","@,
    }
}

/// A raw value is valid: split on the delimiter with each trimmed piece
/// valid when the argument takes multiple values, valid as one value
/// otherwise.
pub open spec fn spec_value_ok(arg: &TemplateArg, v: Seq<char>) -> bool {
    if arg.multiple {
        let pieces = spec_split_trim(v, spec_delimiter(arg));
        forall|i: int| 0 <= i < pieces.len() ==> spec_single_ok(arg, #[trigger] pieces[i])
    } else {
        spec_single_ok(arg, v)
    }
}

/// The line the Enum error lists for one choice: `value (description)`.
pub open spec fn spec_enum_item(v: ArgValue) -> Seq<char> {
    v.value@ + " ("@ + v.description@ + ")"@
}

/// The Enum error message: the header, then every choice's line.
pub open spec fn spec_enum_message(vals: Seq<ArgValue>) -> Seq<char> {
    "Value must be one of:\n"@ + spec_join_with(
        vals.map_values(|v: ArgValue| spec_enum_item(v)),
        "\n"@,
    )
}

/// The message for a value that fails its type rule.
pub open spec fn spec_type_error(arg: &TemplateArg) -> Seq<char> {
    match arg.arg_type {
        ArgType::Number => "Value must be a number"@,
        ArgType::Boolean => "Value must be true or false"@,
        ArgType::Enum => match arg.values {
            Some(vals) => spec_enum_message(vals@),
            None => Seq::empty(),
        },
        ArgType::Email => "Invalid email address"@,
        ArgType::Url => "Invalid URL"@,
        ArgType::Path => "Path cannot contain .."@,
        ArgType::String => Seq::empty(),
    }
}

/// The message a single invalid value draws: the type rule's message first,
/// else the pattern's — a pattern that does not compile is itself a
/// validation error, not a panic.
pub open spec fn spec_single_error(arg: &TemplateArg, v: Seq<char>) -> Seq<char> {
    if !spec_type_ok(arg, v) {
        spec_type_error(arg)
    } else {
        match arg.pattern {
            Some(p) => if !regex_valid(p@) {
                "Invalid regex pattern"@
            } else {
                "Value does not match pattern: "@ + p@
            },
            None => Seq::empty(),
        }
    }
}

/// The message the first invalid piece draws, scanning from piece `i` on.
pub open spec fn spec_multi_error(arg: &TemplateArg, pieces: Seq<Seq<char>>, i: int) -> Seq<char>
    recommends
        0 <= i,
    decreases pieces.len() - i,
{
    if i < 0 || i >= pieces.len() {
        Seq::empty()
    } else if !spec_single_ok(arg, pieces[i]) {
        spec_single_error(arg, pieces[i])
    } else {
        spec_multi_error(arg, pieces, i + 1)
    }
}

/// The message an invalid raw value draws.
pub open spec fn spec_value_error(arg: &TemplateArg, v: Seq<char>) -> Seq<char> {
    if arg.multiple {
        spec_multi_error(arg, spec_split_trim(v, spec_delimiter(arg)), 0)
    } else {
        spec_single_error(arg, v)
    }
}

/// Builds the Enum error message from the declared choices.
fn build_enum_message(vals: &Vec<ArgValue>) -> (r: String)
    ensures
        r@ == spec_enum_message(vals@),
{
    let mut items: Vec<String> = Vec::new();
    let mut i: usize = 0;
    while i < vals.len()
        invariant
            i <= vals@.len(),
            items@.len() == i,
            forall|j: int| 0 <= j < i ==> items@[j]@ == spec_enum_item(#[trigger] vals@[j]),
        decreases vals@.len() - i,
    {
        let mut line = vals[i].value.clone();
        line.append(" (");
        line.append(vals[i].description.as_str());
        line.append(")");
        items.push(line);
        i = i + 1;
    }
    proof {
        assert(items.deep_view() =~= vals@.map_values(|v: ArgValue| spec_enum_item(v)));
    }
    let joined = join_with(&items, "\n");
    let mut out = String::new();
    out.append("Value must be one of:\n");
    out.append(joined.as_str());
    out
}

impl TemplateArg {
    /// Checks one value against the type rule and the pattern.
    fn validate_single_value(&self, value: &str) -> (r: Result<String, String>)
        ensures
            r is Ok <==> spec_single_ok(self, value@),
            r matches Ok(s) ==> s@ == value@,
            r matches Err(e) ==> e@ == spec_single_error(self, value@),
    {
        match self.arg_type {
            ArgType::Number => {
                if !is_float_literal(value) {
                    return Err("Value must be a number".to_owned());
                }
            },
            ArgType::Boolean => {
                if !is_bool_literal(value) {
                    return Err("Value must be true or false".to_owned());
                }
            },
            ArgType::Enum => {
                if let Some(values) = &self.values {
                    let mut i: usize = 0;
                    let mut found = false;
                    while i < values.len()
                        invariant
                            i <= values@.len(),
                            found ==> exists|k: int|
                                0 <= k < values@.len() && (#[trigger] values@[k]).value@ == value@,
                            !found ==> forall|k: int|
                                0 <= k < i ==> (#[trigger] values@[k]).value@ != value@,
                        decreases values@.len() - i,
                    {
                        if str_eq(values[i].value.as_str(), value) {
                            found = true;
                        }
                        i = i + 1;
                    }
                    if !found {
                        return Err(build_enum_message(values));
                    }
                }
            },
            ArgType::Email => {
                if !contains_str(value, "@") {
                    return Err("Invalid email address".to_owned());
                }
            },
            ArgType::Url => {
                if !starts_with_str(value, "http://") && !starts_with_str(value, "https://") {
                    return Err("Invalid URL".to_owned());
                }
            },
            ArgType::Path => {
                if contains_str(value, "..") {
                    return Err("Path cannot contain ..".to_owned());
                }
            },
            ArgType::String => {
            },
        }
        if let Some(pattern) = &self.pattern {
            match regex_try_match(pattern.as_str(), value) {
                None => {
                    return Err("Invalid regex pattern".to_owned());
                },
                Some(false) => {
                    let mut msg = String::new();
                    msg.append("Value does not match pattern: ");
                    msg.append(pattern.as_str());
                    return Err(msg);
                },
                Some(true) => {
                },
            }
        }
        Ok(value.to_owned())
    }

    /// Validates a raw value against this declaration: a multiple-valued
    /// argument is split on its delimiter and every trimmed piece checked,
    /// failing with the first invalid piece's message; success returns the
    /// raw value unchanged.
    pub fn validate_value(&self, value: &str) -> (r: Result<String, String>)
        ensures
            r is Ok <==> spec_value_ok(self, value@),
            r matches Ok(s) ==> s@ == value@,
            r matches Err(e) ==> e@ == spec_value_error(self, value@),
    {
        if self.multiple {
            let delimiter: &str = match &self.delimiter {
                Some(d) => d.as_str(),
                None => ",",
            };
            let pieces = split_trim(value, delimiter);
            let ghost pv = spec_split_trim(value@, spec_delimiter(self));
            let mut i: usize = 0;
            while i < pieces.len()
                invariant
                    self.multiple,
                    i <= pieces@.len(),
                    pieces.deep_view() == pv,
                    pv == spec_split_trim(value@, spec_delimiter(self)),
                    forall|j: int| 0 <= j < i ==> spec_single_ok(self, #[trigger] pv[j]),
                    spec_multi_error(self, pv, 0) == spec_multi_error(self, pv, i as int),
                decreases pieces@.len() - i,
            {
                assert(pieces@[i as int]@ == pv[i as int]);
                match self.validate_single_value(pieces[i].as_str()) {
                    Ok(_) => {
                    },
                    Err(e) => {
                        return Err(e);
                    },
                }
                i = i + 1;
            }
            Ok(value.to_owned())
        } else {
            self.validate_single_value(value)
        }
    }

    /// The delimiter this argument's multiple values are joined with and
    /// split on.
    pub fn effective_delimiter(&self) -> (r: String)
        ensures
            r@ == spec_delimiter(self),
    {
        match &self.delimiter {
            Some(d) => d.clone(),
            None => String::from_str(","),
        }
    }

    /// The label the chooser shows for each declared choice:
    /// `value: description`.
    pub fn choice_items(&self) -> (r: Vec<String>)
        ensures
            r.deep_view() == spec_choice_items(self),
    {
        let mut out: Vec<String> = Vec::new();
        if let Some(vals) = &self.values {
            let mut i: usize = 0;
            while i < vals.len()
                invariant
                    self.values matches Some(v) && v == *vals,
                    i <= vals@.len(),
                    out@.len() == i,
                    forall|j: int|
                        0 <= j < i ==> out@[j]@ == spec_choice_item(#[trigger] vals@[j]),
                decreases vals@.len() - i,
            {
                let mut line = vals[i].value.clone();
                line.append(": ");
                line.append(vals[i].description.as_str());
                out.push(line);
                i = i + 1;
            }
        }
        proof {
            assert(out.deep_view() =~= spec_choice_items(self));
        }
        out
    }

    /// Whether each declared choice starts out selected: its value occurs
    /// among the comma-separated, trimmed pieces of the default.
    pub fn default_choice_flags(&self) -> (r: Vec<bool>)
        ensures
            r@ == spec_default_flags(self),
    {
        let mut out: Vec<bool> = Vec::new();
        if let Some(vals) = &self.values {
            let pieces = split_trim(self.default.as_str(), ",");
            let mut i: usize = 0;
            while i < vals.len()
                invariant
                    self.values matches Some(v) && v == *vals,
                    pieces.deep_view() == spec_split_trim(self.default@, ","@),
                    i <= vals@.len(),
                    out@.len() == i,
                    forall|j: int|
                        0 <= j < i ==> out@[j] == spec_split_trim(self.default@, ","@).contains(
                            (#[trigger] vals@[j]).value@,
                        ),
                decreases vals@.len() - i,
            {
                let flag = crate::strutil::list_contains(&pieces, vals[i].value.as_str());
                out.push(flag);
                i = i + 1;
            }
        }
        proof {
            assert(out@ =~= spec_default_flags(self));
        }
        out
    }

    /// The position of the first declared choice whose value equals the
    /// default, or 0 when none does.
    pub fn default_choice_index(&self) -> (r: usize)
        ensures
            match self.values {
                Some(vals) => {
                    ||| (r < vals@.len() && vals@[r as int].value@ == self.default@ && forall|j: int|
                        0 <= j < r ==> (#[trigger] vals@[j]).value@ != self.default@)
                    ||| (r == 0 && forall|j: int|
                        0 <= j < vals@.len() ==> (#[trigger] vals@[j]).value@ != self.default@)
                },
                None => r == 0,
            },
    {
        if let Some(vals) = &self.values {
            let mut i: usize = 0;
            while i < vals.len()
                invariant
                    self.values matches Some(v) && v == *vals,
                    i <= vals@.len(),
                    forall|j: int| 0 <= j < i ==> (#[trigger] vals@[j]).value@ != self.default@,
                decreases vals@.len() - i,
            {
                if str_eq(vals[i].value.as_str(), self.default.as_str()) {
                    return i;
                }
                i = i + 1;
            }
        }
        0
    }

    /// The prompt shown for this argument: the name, the description in
    /// parentheses when there is one, and a multi-select hint when several
    /// values may be chosen.
    pub fn get_prompt(&self) -> (r: String)
        ensures
            r@ == spec_prompt(self),
    {
        let mut prompt = self.name.clone();
        if let Some(desc) = &self.description {
            let mut with_desc = String::new();
            with_desc.append(prompt.as_str());
            with_desc.append(" (");
            with_desc.append(desc.as_str());
            with_desc.append(")");
            prompt = with_desc;
        }
        if self.multiple {
            prompt.append(" (Select multiple with space)");
        }
        prompt
    }

    /// The long description shown above the prompt, when there is one.
    pub fn get_details(&self) -> (r: Option<String>)
        ensures
            r.deep_view() == self.long_description.deep_view(),
    {
        self.long_description.clone()
    }
}

/// The chooser line for one declared choice: `value: description`.
pub open spec fn spec_choice_item(v: ArgValue) -> Seq<char> {
    v.value@ + ": "@ + v.description@
}

/// The chooser lines of all declared choices; none when none are declared.
pub open spec fn spec_choice_items(arg: &TemplateArg) -> Seq<Seq<char>> {
    match arg.values {
        Some(vals) => vals@.map_values(|v: ArgValue| spec_choice_item(v)),
        None => Seq::empty(),
    }
}

/// For each declared choice, whether the default preselects it.
pub open spec fn spec_default_flags(arg: &TemplateArg) -> Seq<bool> {
    match arg.values {
        Some(vals) => vals@.map_values(
            |v: ArgValue| spec_split_trim(arg.default@, ","@).contains(v.value@),
        ),
        None => Seq::empty(),
    }
}

/// For a single-valued Number argument without a pattern, a raw value
/// validates exactly when it parses as a 64-bit float.
pub proof fn lemma_number_validation(arg: &TemplateArg, v: Seq<char>)
    requires
        arg.arg_type == ArgType::Number,
        !arg.multiple,
        arg.pattern is None,
    ensures
        spec_value_ok(arg, v) == spec_is_float_literal(v),
{
}

/// For a single-valued Enum argument with declared choices and no pattern,
/// a raw value validates exactly when it equals one declared choice's value.
pub proof fn lemma_enum_validation(arg: &TemplateArg, v: Seq<char>)
    requires
        arg.arg_type == ArgType::Enum,
        !arg.multiple,
        arg.pattern is None,
        arg.values is Some,
    ensures
        spec_value_ok(arg, v) <==> exists|i: int|
            0 <= i < arg.values->0@.len() && (#[trigger] arg.values->0@[i]).value@ == v,
{
}

/// For a single-valued Path argument without a pattern, a raw value
/// validates exactly when it does not contain `..`.
pub proof fn lemma_path_validation(arg: &TemplateArg, v: Seq<char>)
    requires
        arg.arg_type == ArgType::Path,
        !arg.multiple,
        arg.pattern is None,
    ensures
        spec_value_ok(arg, v) == !spec_contains(v, ".."@),
{
}

/// The prompt `get_prompt` builds.
pub open spec fn spec_prompt(arg: &TemplateArg) -> Seq<char> {
    let base = match arg.description {
        Some(d) => arg.name@ + " ("@ + d@ + ")"@,
        None => arg.name@,
    };
    if arg.multiple {
        base + " (Select multiple with space)"@
    } else {
        base
    }
}

} // verus!
