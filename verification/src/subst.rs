//! Placeholder substitution: every literal occurrence of `{{ key }}` (one
//! space of padding on each side) is replaced by the value bound to `key`;
//! a token whose key is unbound is left verbatim. The pass is single and
//! left-to-right — substituted values are not scanned again.

use crate::argmap::ArgMap;
use crate::strutil::{find_str, spec_find};
use vstd::prelude::*;
use vstd::string::{StrSliceExecFns, StringExecFns};

verus! {

/// The three characters that close a placeholder token.
pub open spec fn close_marker() -> Seq<char> {
    seq![' ', '}', '}']
}

/// A placeholder token opens at position `i` of `s`.
pub open spec fn spec_token_open(s: Seq<char>, i: int) -> bool {
    i + 3 <= s.len() && s[i] == '{' && s[i + 1] == '{' && s[i + 2] == ' '
}

/// The substituted remainder of `s` from position `i` on: at a token whose
/// key is bound, the value followed by the remainder after the token; at any
/// other position, the character itself followed by the rest.
pub open spec fn spec_subst_from(s: Seq<char>, m: Map<Seq<char>, Seq<char>>, i: int) -> Seq<char>
    recommends
        0 <= i <= s.len(),
    decreases s.len() - i,
{
    if i < 0 || i >= s.len() {
        Seq::empty()
    } else {
        let j = spec_find(s, close_marker(), i + 3);
        if spec_token_open(s, i) && i + 3 <= j && j + 3 <= s.len() && m.contains_key(
            s.subrange(i + 3, j),
        ) {
            m[s.subrange(i + 3, j)] + spec_subst_from(s, m, j + 3)
        } else {
            seq![s[i]] + spec_subst_from(s, m, i + 1)
        }
    }
}

/// `s` with every `{{ key }}` token whose key is bound in `m` replaced by
/// the bound value.
pub open spec fn spec_subst(s: Seq<char>, m: Map<Seq<char>, Seq<char>>) -> Seq<char> {
    spec_subst_from(s, m, 0)
}

/// Replaces each `{{ key }}` token of `content` by the value `args` binds to
/// `key`, leaving tokens with unbound keys verbatim.
pub fn replace_args(content: &str, args: &ArgMap) -> (r: String)
    ensures
        r@ == spec_subst(content@, args@),
{
    let n = content.unicode_len();
    let mut out = String::new();
    let mut i: usize = 0;
    while i < n
        invariant
            n == content@.len(),
            i <= n,
            spec_subst(content@, args@) == out@ + spec_subst_from(content@, args@, i as int),
        decreases n - i,
    {
        proof {
            reveal_strlit(" }}");
            assert(" }}"@ =~= close_marker());
        }
        let ghost prev = out@;
        let mut replaced = false;
        if n - i >= 3 && content.get_char(i) == '{' && content.get_char(i + 1) == '{'
            && content.get_char(i + 2) == ' ' {
            match find_str(content, " }}", i + 3) {
                Some(j) => {
                    let key = content.substring_char(i + 3, j);
                    match args.get(key) {
                        Some(v) => {
                            out.append(v.as_str());
                            proof {
                                assert(spec_subst_from(content@, args@, i as int) == args@[key@]
                                    + spec_subst_from(content@, args@, j + 3));
                                assert(prev + spec_subst_from(content@, args@, i as int) =~= out@
                                    + spec_subst_from(content@, args@, j + 3));
                            }
                            i = j + 3;
                            replaced = true;
                        },
                        None => {
                        },
                    }
                },
                None => {
                },
            }
        }
        if !replaced {
            let piece = content.substring_char(i, i + 1);
            out.append(piece);
            proof {
                assert(spec_subst_from(content@, args@, i as int) == seq![content@[i as int]]
                    + spec_subst_from(content@, args@, i + 1));
                assert(piece@ =~= seq![content@[i as int]]);
                assert(prev + spec_subst_from(content@, args@, i as int) =~= out@
                    + spec_subst_from(content@, args@, i + 1));
            }
            i = i + 1;
        }
    }
    proof {
        assert(out@ + spec_subst_from(content@, args@, n as int) =~= out@);
    }
    out
}

} // verus!
