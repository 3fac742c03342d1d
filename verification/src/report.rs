//! Derived strings for the reporting sink: each log line carries a marker
//! for its level.

use crate::strutil::str_eq;
use vstd::prelude::*;
use vstd::string::StringExecFns;

verus! {

/// The marker a level puts before its message.
pub open spec fn spec_log_prefix(level: Seq<char>) -> Seq<char> {
    if level == "INFO"@ {
        "┃ 🔹 "@
    } else if level == "WARN"@ {
        "┃ ⚠️  "@
    } else if level == "ERROR"@ {
        "┃ ❌ "@
    } else {
        "┃   "@
    }
}

/// Prefixes the message with its level's marker.
pub fn format_log_message(message: &str, level: &str) -> (r: String)
    ensures
        r@ == spec_log_prefix(level@) + message@,
{
    let mut out = String::new();
    if str_eq(level, "INFO") {
        out.append("┃ 🔹 ");
    } else if str_eq(level, "WARN") {
        out.append("┃ ⚠️  ");
    } else if str_eq(level, "ERROR") {
        out.append("┃ ❌ ");
    } else {
        out.append("┃   ");
    }
    out.append(message);
    out
}

} // verus!
