//! The target-language tag of a manifest: a closed set of known languages
//! plus a catch-all that keeps the lowercased tag text.

use crate::strutil::str_eq;
use vstd::prelude::*;
use vstd::string::StringExecFns;

verus! {

/// The Unicode-lowercased text of `s`, as `str::to_lowercase` yields it.
pub uninterp spec fn lower_of(s: Seq<char>) -> Seq<char>;

/// Relies on str::to_lowercase: the result depends on the characters alone.
#[verifier::external_body]
fn lowercase(s: &str) -> (r: String)
    ensures
        r@ == lower_of(s@),
        s@.len() == 0 ==> r@.len() == 0,
{
    s.to_lowercase()
}

/// The language a template targets.
#[derive(Debug)]
pub enum Language {
    JavaScript,
    TypeScript,
    Rust,
    Go,
    Python,
    Java,
    CSharp,
    Cpp,
    Other(String),
}

/// The display name of each language.
pub open spec fn spec_language_name(l: &Language) -> Seq<char> {
    match l {
        Language::JavaScript => "JavaScript"@,
        Language::TypeScript => "TypeScript"@,
        Language::Rust => "Rust"@,
        Language::Go => "Go"@,
        Language::Python => "Python"@,
        Language::Java => "Java"@,
        Language::CSharp => "C#"@,
        Language::Cpp => "C++"@,
        Language::Other(s) => s@,
    }
}

impl Language {
    /// Reads a language tag, ignoring letter case; an unknown tag is kept as
    /// itself, lowercased.
    pub fn parse(s: &str) -> (r: Language)
        ensures
            ({
                let l = lower_of(s@);
                if l == "javascript"@ {
                    r is JavaScript
                } else if l == "typescript"@ {
                    r is TypeScript
                } else if l == "rust"@ {
                    r is Rust
                } else if l == "go"@ {
                    r is Go
                } else if l == "python"@ {
                    r is Python
                } else if l == "java"@ {
                    r is Java
                } else if l == "csharp"@ {
                    r is CSharp
                } else if l == "cpp"@ {
                    r is Cpp
                } else {
                    r matches Language::Other(o) && o@ == l
                }
            }),
    {
        let lower = lowercase(s);
        if str_eq(lower.as_str(), "javascript") {
            Language::JavaScript
        } else if str_eq(lower.as_str(), "typescript") {
            Language::TypeScript
        } else if str_eq(lower.as_str(), "rust") {
            Language::Rust
        } else if str_eq(lower.as_str(), "go") {
            Language::Go
        } else if str_eq(lower.as_str(), "python") {
            Language::Python
        } else if str_eq(lower.as_str(), "java") {
            Language::Java
        } else if str_eq(lower.as_str(), "csharp") {
            Language::CSharp
        } else if str_eq(lower.as_str(), "cpp") {
            Language::Cpp
        } else {
            Language::Other(lower)
        }
    }

    /// The name shown for this language.
    pub fn display_name(&self) -> (r: String)
        ensures
            r@ == spec_language_name(self),
    {
        match self {
            Language::JavaScript => String::from_str("JavaScript"),
            Language::TypeScript => String::from_str("TypeScript"),
            Language::Rust => String::from_str("Rust"),
            Language::Go => String::from_str("Go"),
            Language::Python => String::from_str("Python"),
            Language::Java => String::from_str("Java"),
            Language::CSharp => String::from_str("C#"),
            Language::Cpp => String::from_str("C++"),
            Language::Other(s) => s.clone(),
        }
    }
}

} // verus!
