//! Resolving a template reference to the address its manifest is fetched
//! from: a full URL is taken as it is, a bare name goes under the catalogue's
//! scaffold path, an `owner/name` pair under its api root, and anything with
//! more slashes is refused.

use crate::strutil::{contains_str, spec_contains, spec_split, spec_starts_with, split_str, starts_with_str};
use vstd::prelude::*;
use vstd::string::StringExecFns;

verus! {

/// The catalogue the tool fetches manifests from.
pub open spec fn spec_base_url() -> Seq<char> {
    "https://scaf.pages.dev"@
}

/// Where the manifest of `template` is fetched from, or `None` when the
/// reference is malformed.
pub fn manifest_url(template: &str) -> (r: Option<String>)
    ensures
        spec_starts_with(template@, "http"@) ==> (r matches Some(u) && u@ == template@),
        !spec_starts_with(template@, "http"@) && !spec_contains(template@, "/"@) ==> (r matches
            Some(u) && u@ == spec_base_url() + "/api/scaf/"@ + template@),
        !spec_starts_with(template@, "http"@) && spec_contains(template@, "/"@) && spec_split(
            template@,
            "/"@,
        ).len() == 2 ==> (r matches Some(u) && u@ == spec_base_url() + "/api/"@ + template@),
        !spec_starts_with(template@, "http"@) && spec_contains(template@, "/"@) && spec_split(
            template@,
            "/"@,
        ).len() != 2 ==> r is None,
{
    if starts_with_str(template, "http") {
        return Some(template.to_owned());
    }
    if !contains_str(template, "/") {
        let mut url = String::new();
        url.append("https://scaf.pages.dev");
        url.append("/api/scaf/");
        url.append(template);
        return Some(url);
    }
    let pieces = split_str(template, "/");
    if pieces.len() == 2 {
        let mut url = String::new();
        url.append("https://scaf.pages.dev");
        url.append("/api/");
        url.append(template);
        Some(url)
    } else {
        None
    }
}

} // verus!
