//! The text-patch engine: five line-oriented strategies for modifying file
//! content. Content is split into newline-delimited lines (no trailing-empty
//! artifact), the strategy rearranges them, and the result is rejoined with
//! single `\n` separators, no trailing newline added.

use crate::step::ModificationType;
use crate::strutil::spec_find;
use crate::strutil::find_str;
use vstd::prelude::*;
use vstd::string::{StrSliceExecFns, StringExecFns};

verus! {

/// The lines of `s` from position `i` on, split at `\n`, the final line
/// ending optional.
pub open spec fn spec_lines_from(s: Seq<char>, i: int) -> Seq<Seq<char>>
    recommends
        0 <= i <= s.len(),
    decreases s.len() - i,
{
    if i < 0 || i >= s.len() {
        Seq::empty()
    } else {
        let j = spec_find(s, seq!['\n'], i);
        if i <= j && j + 1 <= s.len() {
            seq![s.subrange(i, j)] + spec_lines_from(s, j + 1)
        } else {
            seq![s.subrange(i, s.len() as int)]
        }
    }
}

/// The lines of `s`, as `str::lines` yields them for `\n`-delimited text:
/// empty content has no lines, and a trailing newline adds none.
pub open spec fn spec_lines(s: Seq<char>) -> Seq<Seq<char>> {
    spec_lines_from(s, 0)
}

/// What follows line `k` when lines are joined: nothing when `k` is past the
/// end, else a separator and the remaining lines.
pub open spec fn spec_join_from(ls: Seq<Seq<char>>, k: int) -> Seq<char>
    recommends
        0 <= k,
    decreases ls.len() - k,
{
    if k < 0 || k >= ls.len() {
        Seq::empty()
    } else {
        seq!['\n'] + ls[k] + spec_join_from(ls, k + 1)
    }
}

/// The lines joined with single `\n` separators and no trailing newline.
pub open spec fn spec_join_lines(ls: Seq<Seq<char>>) -> Seq<char> {
    if ls.len() == 0 {
        Seq::empty()
    } else {
        ls[0] + spec_join_from(ls, 1)
    }
}

/// The line sequence a patch produces from the old content's lines. `old_len`
/// is the length of the old content itself, whose emptiness (not the line
/// count) decides whether a separator line is placed beside the new content.
pub open spec fn spec_patched_lines(
    old: Seq<char>,
    content: Seq<char>,
    mt: ModificationType,
    ln: Option<usize>,
) -> Seq<Seq<char>> {
    let lines = spec_lines(old);
    let sep: Seq<Seq<char>> = if old.len() > 0 {
        seq![Seq::<char>::empty()]
    } else {
        Seq::empty()
    };
    match mt {
        ModificationType::Append => lines + sep + seq![content],
        ModificationType::Prepend => seq![content] + sep + lines,
        ModificationType::Replace => match ln {
            Some(k) => if 1 <= k && k <= lines.len() {
                lines.update(k - 1, content)
            } else {
                lines
            },
            None => seq![content],
        },
        ModificationType::InsertAfter => match ln {
            Some(k) => if 1 <= k && k <= lines.len() {
                lines.subrange(0, k as int) + seq![content] + lines.subrange(
                    k as int,
                    lines.len() as int,
                )
            } else {
                lines
            },
            None => lines + seq![content],
        },
        ModificationType::InsertBefore => match ln {
            Some(k) => if 1 <= k && k <= lines.len() {
                lines.subrange(0, k - 1) + seq![content] + lines.subrange(
                    k - 1,
                    lines.len() as int,
                )
            } else {
                lines
            },
            None => seq![content] + lines,
        },
    }
}

/// The patched content: the rearranged lines, rejoined.
pub open spec fn spec_patch(
    old: Seq<char>,
    content: Seq<char>,
    mt: ModificationType,
    ln: Option<usize>,
) -> Seq<char> {
    spec_join_lines(spec_patched_lines(old, content, mt, ln))
}

/// Replacing a line whose number is within the line count changes exactly
/// that line: the patched line sequence has the same length, holds the new
/// content at the target position, and keeps every other line unchanged.
pub proof fn lemma_replace_changes_only_target(old: Seq<char>, content: Seq<char>, k: usize)
    requires
        1 <= k <= spec_lines(old).len(),
    ensures
        ({
            let before = spec_lines(old);
            let after = spec_patched_lines(old, content, ModificationType::Replace, Some(k));
            &&& after.len() == before.len()
            &&& after[k - 1] == content
            &&& forall|j: int| 0 <= j < before.len() && j != k - 1 ==> after[j] == before[j]
        }),
{
}

/// Appending keeps every old line in place and in order, and puts the new
/// content last — after one separator line when the old content was
/// non-empty.
pub proof fn lemma_append_keeps_old_lines(old: Seq<char>, content: Seq<char>, ln: Option<usize>)
    ensures
        ({
            let before = spec_lines(old);
            let after = spec_patched_lines(old, content, ModificationType::Append, ln);
            &&& forall|j: int| 0 <= j < before.len() ==> after[j] == before[j]
            &&& after.len() > 0
            &&& after.last() == content
            &&& after.len() == before.len() + if old.len() > 0 {
                2int
            } else {
                1int
            }
        }),
{
}

/// Splits content into its lines, owned.
pub fn split_lines(s: &str) -> (r: Vec<String>)
    ensures
        r.deep_view() == spec_lines(s@),
{
    let n = s.unicode_len();
    let mut out: Vec<String> = Vec::new();
    let mut i: usize = 0;
    while i < n
        invariant
            n == s@.len(),
            i <= n,
            spec_lines(s@) == out.deep_view() + spec_lines_from(s@, i as int),
        decreases n - i,
    {
        proof {
            reveal_strlit("\n");
            assert("\n"@ =~= seq!['\n']);
        }
        let ghost prev = out.deep_view();
        match find_str(s, "\n", i) {
            Some(j) => {
                let piece = s.substring_char(i, j);
                out.push(piece.to_owned());
                proof {
                    assert(out.deep_view() =~= prev.push(piece@));
                    assert(spec_lines_from(s@, i as int) == seq![s@.subrange(i as int, j as int)]
                        + spec_lines_from(s@, j + 1));
                    assert(prev + spec_lines_from(s@, i as int) =~= out.deep_view()
                        + spec_lines_from(s@, j + 1));
                }
                i = j + 1;
            },
            None => {
                let piece = s.substring_char(i, n);
                out.push(piece.to_owned());
                proof {
                    assert(out.deep_view() =~= prev.push(piece@));
                    assert(spec_lines_from(s@, i as int) =~= seq![
                        s@.subrange(i as int, n as int),
                    ]);
                    assert(out.deep_view() =~= spec_lines(s@));
                }
                return out;
            },
        }
    }
    proof {
        assert(out.deep_view() + spec_lines_from(s@, n as int) =~= out.deep_view());
    }
    out
}

/// Joins lines with single `\n` separators, no trailing newline.
pub fn join_lines(ls: &Vec<String>) -> (r: String)
    ensures
        r@ == spec_join_lines(ls.deep_view()),
{
    let mut out = String::new();
    if ls.len() == 0 {
        return out;
    }
    out.append(ls[0].as_str());
    let mut k: usize = 1;
    while k < ls.len()
        invariant
            1 <= k <= ls@.len(),
            spec_join_lines(ls.deep_view()) == out@ + spec_join_from(ls.deep_view(), k as int),
        decreases ls@.len() - k,
    {
        proof {
            reveal_strlit("\n");
            assert("\n"@ =~= seq!['\n']);
        }
        let ghost prev = out@;
        out.append("\n");
        out.append(ls[k].as_str());
        proof {
            assert(ls@[k as int]@ == ls.deep_view()[k as int]);
            assert(spec_join_from(ls.deep_view(), k as int) == seq!['\n'] + ls.deep_view()[k as int]
                + spec_join_from(ls.deep_view(), k + 1));
            assert(prev + spec_join_from(ls.deep_view(), k as int) =~= out@ + spec_join_from(
                ls.deep_view(),
                k + 1,
            ));
        }
        k = k + 1;
    }
    out
}

/// Appends clones of all of `lines` to `out`.
fn push_all(out: &mut Vec<String>, lines: &Vec<String>)
    ensures
        final (out).deep_view() == old(out).deep_view() + lines.deep_view(),
{
    let mut i: usize = 0;
    while i < lines.len()
        invariant
            i <= lines@.len(),
            out.deep_view() =~= old(out).deep_view() + lines.deep_view().take(i as int),
        decreases lines@.len() - i,
    {
        let ghost prev = out.deep_view();
        out.push(lines[i].clone());
        proof {
            assert(out.deep_view() =~= prev.push(lines.deep_view()[i as int]));
            assert(prev.push(lines.deep_view()[i as int]) =~= old(out).deep_view()
                + lines.deep_view().take(i + 1));
        }
        i = i + 1;
    }
    proof {
        assert(lines.deep_view().take(lines@.len() as int) =~= lines.deep_view());
    }
}

/// A copy of `lines` with `content` inserted at position `pos`.
fn copy_insert(lines: &Vec<String>, content: &str, pos: usize) -> (r: Vec<String>)
    requires
        pos <= lines@.len(),
    ensures
        r.deep_view() == lines.deep_view().subrange(0, pos as int) + seq![content@]
            + lines.deep_view().subrange(pos as int, lines.deep_view().len() as int),
{
    let mut out: Vec<String> = Vec::new();
    let mut i: usize = 0;
    while i < pos
        invariant
            i <= pos <= lines@.len(),
            out.deep_view() =~= lines.deep_view().take(i as int),
        decreases pos - i,
    {
        let ghost prev = out.deep_view();
        out.push(lines[i].clone());
        proof {
            assert(out.deep_view() =~= prev.push(lines.deep_view()[i as int]));
            assert(out.deep_view() =~= lines.deep_view().take(i + 1));
        }
        i = i + 1;
    }
    let ghost mid = out.deep_view();
    out.push(content.to_owned());
    proof {
        assert(out.deep_view() =~= mid.push(content@));
    }
    let ghost withc = out.deep_view();
    let mut i: usize = pos;
    while i < lines.len()
        invariant
            pos <= i <= lines@.len(),
            withc == lines.deep_view().take(pos as int).push(content@),
            out.deep_view() =~= withc + lines.deep_view().subrange(pos as int, i as int),
        decreases lines@.len() - i,
    {
        let ghost prev = out.deep_view();
        out.push(lines[i].clone());
        proof {
            assert(out.deep_view() =~= prev.push(lines.deep_view()[i as int]));
            assert(out.deep_view() =~= withc + lines.deep_view().subrange(pos as int, i + 1));
        }
        i = i + 1;
    }
    proof {
        assert(out.deep_view() =~= lines.deep_view().subrange(0, pos as int) + seq![content@]
            + lines.deep_view().subrange(pos as int, lines.deep_view().len() as int));
    }
    out
}

/// Applies one modification strategy to the old content, returning the new
/// content. An out-of-range line number (0 included) leaves insertion and
/// replacement without a matching position, so the lines pass through
/// unchanged.
pub fn apply_patch(old_content: &str, content: &str, mt: &ModificationType, ln: Option<usize>) -> (r:
    String)
    ensures
        r@ == spec_patch(old_content@, content@, *mt, ln),
{
    let lines = split_lines(old_content);
    let nonempty = old_content.unicode_len() > 0;
    let ghost target = spec_patched_lines(old_content@, content@, *mt, ln);
    let patched: Vec<String> = match mt {
        ModificationType::Append => {
            let mut out: Vec<String> = Vec::new();
            push_all(&mut out, &lines);
            if nonempty {
                out.push(String::new());
            }
            out.push(content.to_owned());
            proof {
                assert(out.deep_view() =~= target);
            }
            out
        },
        ModificationType::Prepend => {
            let mut out: Vec<String> = Vec::new();
            out.push(content.to_owned());
            if nonempty {
                out.push(String::new());
            }
            push_all(&mut out, &lines);
            proof {
                assert(out.deep_view() =~= target);
            }
            out
        },
        ModificationType::Replace => {
            match ln {
                Some(k) => {
                    let mut out: Vec<String> = Vec::new();
                    let mut i: usize = 0;
                    while i < lines.len()
                        invariant
                            i <= lines@.len(),
                            out@.len() == i,
                            forall|j: int|
                                0 <= j < i ==> out.deep_view()[j] == if j + 1 == k {
                                    content@
                                } else {
                                    lines.deep_view()[j]
                                },
                        decreases lines@.len() - i,
                    {
                        let ghost prev = out.deep_view();
                        if i + 1 == k {
                            out.push(content.to_owned());
                            proof {
                                assert(out.deep_view() =~= prev.push(content@));
                            }
                        } else {
                            out.push(lines[i].clone());
                            proof {
                                assert(out.deep_view() =~= prev.push(
                                    lines.deep_view()[i as int],
                                ));
                            }
                        }
                        i = i + 1;
                    }
                    proof {
                        assert(out.deep_view() =~= target);
                    }
                    out
                },
                None => {
                    let mut out: Vec<String> = Vec::new();
                    out.push(content.to_owned());
                    proof {
                        assert(out.deep_view() =~= target);
                    }
                    out
                },
            }
        },
        ModificationType::InsertAfter => {
            match ln {
                Some(k) => {
                    if 1 <= k && k <= lines.len() {
                        let out = copy_insert(&lines, content, k);
                        proof {
                            assert(out.deep_view() =~= target);
                        }
                        out
                    } else {
                        let mut out: Vec<String> = Vec::new();
                        push_all(&mut out, &lines);
                        proof {
                            assert(out.deep_view() =~= target);
                        }
                        out
                    }
                },
                None => {
                    let out = copy_insert(&lines, content, lines.len());
                    proof {
                        assert(lines.deep_view().subrange(
                            lines.deep_view().len() as int,
                            lines.deep_view().len() as int,
                        ) =~= Seq::<Seq<char>>::empty());
                        assert(out.deep_view() =~= target);
                    }
                    out
                },
            }
        },
        ModificationType::InsertBefore => {
            match ln {
                Some(k) => {
                    if 1 <= k && k <= lines.len() {
                        let out = copy_insert(&lines, content, k - 1);
                        proof {
                            assert(out.deep_view() =~= target);
                        }
                        out
                    } else {
                        let mut out: Vec<String> = Vec::new();
                        push_all(&mut out, &lines);
                        proof {
                            assert(out.deep_view() =~= target);
                        }
                        out
                    }
                },
                None => {
                    let out = copy_insert(&lines, content, 0);
                    proof {
                        assert(lines.deep_view().subrange(0, 0) =~= Seq::<Seq<char>>::empty());
                        assert(out.deep_view() =~= target);
                    }
                    out
                },
            }
        },
    };
    join_lines(&patched)
}

} // verus!
