//! Manifest discovery: classifying caller arguments, composing candidate
//! paths, and turning the gathered candidates into the final deduplicated,
//! sorted list.

use vstd::prelude::*;
use crate::text::lex_lt;
use crate::text::str_lt;
use crate::text::str_eq;
use crate::text::lemma_lex_irreflexive;
use crate::text::lemma_lex_asymmetric;
use crate::text::lemma_lex_transitive;
use crate::text::lemma_lex_connected;

verus! {

/// The conventional manifest file name.
pub open spec fn manifest_file_name() -> Seq<char> {
    "agent.json"@
}

/// The conventional manifest file name, as a value.
pub fn manifest_name() -> (r: String)
    ensures
        r@ == manifest_file_name(),
{
    "agent.json".to_owned()
}

/// The characters that make an argument a glob pattern.
pub open spec fn glob_char(c: char) -> bool {
    c == '*' || c == '?' || c == '['
}

/// Whether the argument holds a glob metacharacter.
pub open spec fn has_glob(s: Seq<char>) -> bool {
    exists|i: int| 0 <= i < s.len() && glob_char(#[trigger] s[i])
}

/// Whether an argument is to be expanded as a glob pattern.
pub fn looks_like_glob(arg: &str) -> (r: bool)
    ensures
        r == has_glob(arg@),
{
    let n = arg.unicode_len();
    let mut i: usize = 0;
    while i < n
        invariant
            n == arg@.len(),
            0 <= i <= n,
            forall|j: int| 0 <= j < i ==> !glob_char(#[trigger] arg@[j]),
        decreases n - i,
    {
        let c = arg.get_char(i);
        if c == '*' || c == '?' || c == '[' {
            return true;
        }
        i = i + 1;
    }
    false
}

/// Position `i` holds the first path separator of the pattern.
pub open spec fn is_first_slash(s: Seq<char>, i: int) -> bool {
    0 <= i < s.len() && s[i] == '/' && (forall|j: int| 0 <= j < i ==> s[j] != '/')
}

/// Split a glob argument into the literal base before the first path
/// separator and the pattern after it; a pattern without a separator is
/// walked from the current directory.
pub fn split_pattern(pat: &str) -> (r: (String, String))
    ensures
        forall|i: int|
            #[trigger] is_first_slash(pat@, i) ==> r.0@ == pat@.subrange(0, i) && r.1@
                == pat@.subrange(i + 1, pat@.len() as int),
        (forall|j: int| 0 <= j < pat@.len() ==> pat@[j] != '/') ==> r.0@ == "."@ && r.1@ == pat@,
{
    let n = pat.unicode_len();
    let mut i: usize = 0;
    while i < n
        invariant
            n == pat@.len(),
            0 <= i <= n,
            forall|j: int| 0 <= j < i ==> pat@[j] != '/',
        decreases n - i,
    {
        let c = pat.get_char(i);
        if c == '/' {
            let base = pat.substring_char(0, i);
            let rest = pat.substring_char(i + 1, n);
            proof {
                assert forall|k: int| #[trigger] is_first_slash(pat@, k) implies k == i as int by {
                    if k < i as int {
                        assert(pat@[k] != '/');
                    } else if k > i as int {
                        assert(pat@[i as int] != '/');
                    }
                }
            }
            return (base.to_owned(), rest.to_owned());
        }
        i = i + 1;
    }
    (".".to_owned(), pat.to_owned())
}

/// The conventional manifest path inside a directory.
pub open spec fn joined_manifest_path(dir: Seq<char>) -> Seq<char> {
    if dir.len() == 0 {
        manifest_file_name()
    } else if dir[dir.len() - 1] == '/' {
        dir + manifest_file_name()
    } else {
        dir + "/"@ + manifest_file_name()
    }
}

/// Compose the candidate path for a directory argument.
pub fn join_manifest(dir: &str) -> (r: String)
    ensures
        r@ == joined_manifest_path(dir@),
{
    let n = dir.unicode_len();
    if n == 0 {
        return "agent.json".to_owned();
    }
    let mut out = dir.to_owned();
    let last = dir.get_char(n - 1);
    if !(last == '/') {
        out.append("/");
    }
    out.append("agent.json");
    out
}

/// A file argument is accepted only when its file name is exactly the
/// conventional manifest name: it is that name, or ends with a separator
/// followed by it.
pub open spec fn is_manifest_path(p: Seq<char>) -> bool {
    p == manifest_file_name() || (p.len() >= "/agent.json"@.len() && p.skip(
        p.len() - "/agent.json"@.len(),
    ) == "/agent.json"@)
}

/// Whether an existing-file argument names a manifest.
pub fn accepts_file(path: &str) -> (r: bool)
    ensures
        r == is_manifest_path(path@),
{
    proof {
        reveal_strlit("agent.json");
        reveal_strlit("/agent.json");
    }
    if str_eq(path, "agent.json") {
        return true;
    }
    let n = path.unicode_len();
    if n < 11 {
        return false;
    }
    let tail = path.substring_char(n - 11, n);
    let r = str_eq(tail, "/agent.json");
    proof {
        assert(tail@ =~= path@.skip(n - 11));
    }
    r
}

/// The list used when no argument was given: the conventional manifest if
/// it is present in the current directory, else nothing — an empty
/// discovery is not an error.
pub fn default_discovery(manifest_present: bool) -> (r: Vec<String>)
    ensures
        manifest_present ==> r.deep_view() == seq![manifest_file_name()],
        !manifest_present ==> r.deep_view() == Seq::<Seq<char>>::empty(),
{
    let mut out: Vec<String> = Vec::new();
    if manifest_present {
        out.push(manifest_name());
        proof {
            assert(out.deep_view() =~= seq![manifest_file_name()]);
        }
    } else {
        proof {
            assert(out.deep_view() =~= Seq::<Seq<char>>::empty());
        }
    }
    out
}

/// The final discovery list is strictly increasing: sorted, with no
/// duplicate.
pub open spec fn sorted_strict(s: Seq<Seq<char>>) -> bool {
    forall|i: int, j: int| 0 <= i < j < s.len() ==> lex_lt(#[trigger] s[i], #[trigger] s[j])
}

/// Order and deduplicate the gathered candidate paths: the result is the
/// strictly increasing sequence holding exactly the set of candidates.
pub fn finalize_paths(paths: &Vec<String>) -> (r: Vec<String>)
    ensures
        sorted_strict(r.deep_view()),
        r.deep_view().to_set() == paths.deep_view().to_set(),
{
    let ghost all = paths.deep_view();
    let mut out: Vec<String> = Vec::new();
    proof {
        assert(out.deep_view().to_set() =~= all.subrange(0, 0).to_set());
    }
    let mut i: usize = 0;
    while i < paths.len()
        invariant
            all == paths.deep_view(),
            all.len() == paths@.len(),
            0 <= i <= paths@.len(),
            sorted_strict(out.deep_view()),
            out.deep_view().to_set() == all.subrange(0, i as int).to_set(),
        decreases paths@.len() - i,
    {
        let ghost dv = out.deep_view();
        let p = &paths[i];
        let ghost pv = p@;
        proof {
            assert(pv == all[i as int]);
        }
        let mut j: usize = 0;
        while j < out.len() && str_lt(out[j].as_str(), p.as_str())
            invariant
                0 <= j <= out@.len(),
                dv == out.deep_view(),
                pv == p@,
                forall|k: int| 0 <= k < j ==> lex_lt(#[trigger] dv[k], pv),
            decreases out@.len() - j,
        {
            j = j + 1;
        }
        if j < out.len() && str_eq(out[j].as_str(), p.as_str()) {
            proof {
                assert(dv[j as int] == pv);
                assert(dv.to_set().contains(pv));
                assert forall|y: Seq<char>|
                    all.subrange(0, i + 1 as int).to_set().contains(y) implies all.subrange(
                    0,
                    i as int,
                ).to_set().contains(y) by {
                    let k = choose|k: int|
                        0 <= k < i + 1 && #[trigger] all.subrange(0, i + 1 as int)[k] == y;
                    if k < i as int {
                        assert(all.subrange(0, i as int)[k] == y);
                    } else {
                        assert(y == pv);
                        assert(all.subrange(0, i as int).to_set().contains(y));
                    }
                }
                assert forall|y: Seq<char>|
                    all.subrange(0, i as int).to_set().contains(y) implies all.subrange(
                    0,
                    i + 1 as int,
                ).to_set().contains(y) by {
                    let k = choose|k: int| 0 <= k < i && #[trigger] all.subrange(0, i as int)[k] == y;
                    assert(all.subrange(0, i + 1 as int)[k] == y);
                }
                assert(out.deep_view().to_set() =~= all.subrange(0, i + 1 as int).to_set());
            }
        } else {
            proof {
                if j < out@.len() {
                    assert(dv[j as int] != pv);
                    assert(!lex_lt(dv[j as int], pv));
                    lemma_lex_connected(dv[j as int], pv);
                    assert(lex_lt(pv, dv[j as int]));
                }
            }
            let pc = p.clone();
            out.insert(j, pc);
            proof {
                let dv2 = out.deep_view();
                assert(out@.len() == dv.len() + 1);
                assert(dv2.len() == dv.len() + 1);
                assert forall|k: int| 0 <= k < dv2.len() implies #[trigger] dv2[k] == (if k
                    < j as int {
                    dv[k]
                } else if k == j as int {
                    pv
                } else {
                    dv[k - 1]
                }) by {
                    dv.insert_ensures(j as int, pv);
                    assert(out@ == out@.subrange(0, out@.len() as int));
                }
                // sortedness of the new list
                assert forall|m: int, n: int| 0 <= m < n < dv2.len() implies lex_lt(
                    #[trigger] dv2[m],
                    #[trigger] dv2[n],
                ) by {
                    if m < j as int && n < j as int {
                    } else if m < j as int && n == j as int {
                        assert(lex_lt(dv[m], pv));
                    } else if m < j as int && n > j as int {
                        assert(lex_lt(dv[m], dv[n - 1]));
                    } else if m == j as int {
                        assert(n > j as int);
                        if n - 1 > j as int {
                            assert(lex_lt(dv[j as int], dv[n - 1]));
                            lemma_lex_transitive(pv, dv[j as int], dv[n - 1]);
                        }
                    } else {
                        assert(lex_lt(dv[m - 1], dv[n - 1]));
                    }
                }
                // the set gained exactly this path
                assert forall|y: Seq<char>|
                    dv2.to_set().contains(y) implies all.subrange(
                    0,
                    i + 1 as int,
                ).to_set().contains(y) by {
                    let k = choose|k: int| 0 <= k < dv2.len() && dv2[k] == y;
                    if k == j as int {
                        assert(all.subrange(0, i + 1 as int)[i as int] == y);
                    } else {
                        let ghost ko: int = if k < j as int {
                            k
                        } else {
                            k - 1
                        };
                        assert(dv[ko] == y);
                        assert(dv.to_set().contains(y));
                        assert(all.subrange(0, i as int).to_set().contains(y));
                        let m = choose|m: int| 0 <= m < i && #[trigger] all.subrange(0, i as int)[m] == y;
                        assert(all.subrange(0, i + 1 as int)[m] == y);
                    }
                }
                assert forall|y: Seq<char>|
                    all.subrange(0, i + 1 as int).to_set().contains(y) implies dv2.to_set().contains(
                    y,
                ) by {
                    let k = choose|k: int|
                        0 <= k < i + 1 && #[trigger] all.subrange(0, i + 1 as int)[k] == y;
                    if k == i as int {
                        assert(y == pv);
                        assert(dv2[j as int] == y);
                    } else {
                        assert(all.subrange(0, i as int)[k] == y);
                        assert(all.subrange(0, i as int).to_set().contains(y));
                        assert(dv.to_set().contains(y));
                        let m = choose|m: int| 0 <= m < dv.len() && dv[m] == y;
                        if m < j as int {
                            assert(dv2[m] == y);
                        } else {
                            assert(dv2[m + 1] == y);
                        }
                    }
                }
                assert(out.deep_view().to_set() =~= all.subrange(0, i + 1 as int).to_set());
            }
        }
        i = i + 1;
    }
    proof {
        assert(all.subrange(0, all.len() as int) =~= all);
    }
    out
}

/// Discovery is idempotent and order-independent: a strictly increasing
/// list is determined by the set of its members, so any two discovery runs
/// whose candidate paths form the same set end in the same final list,
/// whatever order the candidates were gathered in.
pub proof fn lemma_discovery_deterministic(a: Seq<Seq<char>>, b: Seq<Seq<char>>)
    requires
        sorted_strict(a),
        sorted_strict(b),
        a.to_set() == b.to_set(),
    ensures
        a == b,
    decreases a.len(),
{
    if a.len() == 0 && b.len() == 0 {
        assert(a =~= b);
    } else if a.len() == 0 {
        assert(b.to_set().contains(b[0]));
        assert(a.contains(b[0]));
        assert(false);
    } else if b.len() == 0 {
        assert(a.to_set().contains(a[0]));
        assert(b.contains(a[0]));
        assert(false);
    } else {
        assert(a.to_set().contains(a[0]));
        assert(b.to_set().contains(b[0]));
        let j = choose|j: int| 0 <= j < b.len() && b[j] == a[0];
        let k = choose|k: int| 0 <= k < a.len() && a[k] == b[0];
        if j > 0 && k > 0 {
            assert(lex_lt(b[0], b[j]));
            assert(lex_lt(a[0], a[k]));
            lemma_lex_asymmetric(a[0], b[0]);
            assert(false);
        }
        assert(a[0] == b[0]);
        let at = a.skip(1);
        let bt = b.skip(1);
        assert(at.len() == a.len() - 1);
        assert(bt.len() == b.len() - 1);
        assert forall|m: int, n: int| 0 <= m < n < at.len() implies lex_lt(
            #[trigger] at[m],
            #[trigger] at[n],
        ) by {
            assert(at[m] == a[m + 1]);
            assert(at[n] == a[n + 1]);
        }
        assert forall|m: int, n: int| 0 <= m < n < bt.len() implies lex_lt(
            #[trigger] bt[m],
            #[trigger] bt[n],
        ) by {
            assert(bt[m] == b[m + 1]);
            assert(bt[n] == b[n + 1]);
        }
        assert forall|y: Seq<char>| at.to_set().contains(y) implies bt.to_set().contains(y) by {
            let m = choose|m: int| 0 <= m < at.len() && at[m] == y;
            assert(a[m + 1] == y);
            assert(a.to_set().contains(y));
            assert(b.to_set().contains(y));
            let n = choose|n: int| 0 <= n < b.len() && b[n] == y;
            if n == 0 {
                assert(y == b[0]);
                assert(lex_lt(a[0], a[m + 1]));
                lemma_lex_irreflexive(y);
                assert(false);
            }
            assert(bt[n - 1] == y);
        }
        assert forall|y: Seq<char>| bt.to_set().contains(y) implies at.to_set().contains(y) by {
            let m = choose|m: int| 0 <= m < bt.len() && bt[m] == y;
            assert(b[m + 1] == y);
            assert(b.to_set().contains(y));
            assert(a.to_set().contains(y));
            let n = choose|n: int| 0 <= n < a.len() && a[n] == y;
            if n == 0 {
                assert(y == a[0]);
                assert(lex_lt(b[0], b[m + 1]));
                lemma_lex_irreflexive(y);
                assert(false);
            }
            assert(at[n - 1] == y);
        }
        assert(at.to_set() =~= bt.to_set());
        lemma_discovery_deterministic(at, bt);
        assert forall|m: int| 0 <= m < a.len() implies a[m] == b[m] by {
            if m > 0 {
                assert(at[m - 1] == bt[m - 1]);
            }
        }
        assert(a =~= b);
    }
}

} // verus!
