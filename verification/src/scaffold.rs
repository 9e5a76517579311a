//! Scaffolding support: the naive template renderer and the options of the
//! `init` command.

use vstd::prelude::*;

verus! {

/// What `init` scaffolds: a single-tool package or a composed agent.
#[derive(Clone, Copy, PartialEq, Eq, Structural, Debug)]
pub enum InitKind {
    Tool,
    Agent,
}

/// The options of the `init` command.
pub struct InitArgs {
    pub kind: InitKind,
    pub name: String,
    pub description: String,
    pub out_dir: Option<String>,
}

/// The template text with every occurrence of the pattern replaced, found
/// left to right without overlap.
pub open spec fn replaced(s: Seq<char>, pat: Seq<char>, val: Seq<char>) -> Seq<char>
    decreases s.len(),
{
    if pat.len() == 0 || s.len() < pat.len() {
        s
    } else if s.subrange(0, pat.len() as int) == pat {
        val + replaced(s.skip(pat.len() as int), pat, val)
    } else {
        seq![s[0]] + replaced(s.skip(1), pat, val)
    }
}

/// Replace every occurrence of a non-empty pattern.
fn replace_all(s: &str, pat: &str, val: &str) -> (r: String)
    requires
        pat@.len() >= 1,
    ensures
        r@ == replaced(s@, pat@, val@),
{
    let n = s.unicode_len();
    let m = pat.unicode_len();
    let mut out = String::new();
    let mut i: usize = 0;
    proof {
        assert(s@.skip(0) =~= s@);
    }
    while i < n
        invariant
            n == s@.len(),
            m == pat@.len(),
            m >= 1,
            0 <= i <= n,
            replaced(s@, pat@, val@) == out@ + replaced(s@.skip(i as int), pat@, val@),
        decreases n - i,
    {
        let ghost rest = s@.skip(i as int);
        proof {
            assert(rest.len() == n - i);
        }
        let matches_here = if m <= n - i {
            let piece = s.substring_char(i, i + m);
            crate::text::str_eq(piece, pat)
        } else {
            false
        };
        if matches_here {
            out.append(val);
            proof {
                assert(rest.subrange(0, m as int) =~= s@.subrange(i as int, i + m as int));
                assert(rest.skip(m as int) =~= s@.skip(i + m as int));
            }
            i = i + m;
        } else {
            out.append(s.substring_char(i, i + 1));
            proof {
                if i + m <= n {
                    assert(rest.subrange(0, m as int) =~= s@.subrange(i as int, i + m as int));
                }
                assert(rest[0] == s@[i as int]);
                assert(s@.subrange(i as int, i + 1 as int) =~= seq![s@[i as int]]);
                assert(rest.skip(1) =~= s@.skip(i + 1 as int));
                if rest.len() < m {
                    assert(replaced(rest, pat@, val@) == rest);
                    assert(replaced(rest.skip(1), pat@, val@) == rest.skip(1));
                    assert(rest =~= seq![rest[0]] + rest.skip(1));
                }
            }
            i = i + 1;
        }
    }
    proof {
        assert(s@.skip(n as int).len() == 0);
        assert(replaced(s@.skip(n as int), pat@, val@) == s@.skip(n as int));
        assert(out@ + s@.skip(n as int) =~= out@);
    }
    out
}

/// The placeholder for one key: the key between double braces.
pub open spec fn pattern_of(k: Seq<char>) -> Seq<char> {
    "{{"@ + k + "}}"@
}

/// The view of a variable list.
pub open spec fn var_views(vars: Seq<(String, String)>) -> Seq<(Seq<char>, Seq<char>)> {
    Seq::new(vars.len(), |i: int| (vars[i].0@, vars[i].1@))
}

/// The template after substituting each variable in turn: every
/// `{{KEY}}` becomes that key's value.
pub open spec fn rendered(tpl: Seq<char>, vars: Seq<(Seq<char>, Seq<char>)>) -> Seq<char>
    decreases vars.len(),
{
    if vars.len() == 0 {
        tpl
    } else {
        replaced(
            rendered(tpl, vars.drop_last()),
            pattern_of(vars.last().0),
            vars.last().1,
        )
    }
}

/// Naive template renderer: replaces `{{KEY}}` with the value of each
/// variable, in the order given.
pub fn render(tpl: &str, vars: &Vec<(String, String)>) -> (r: String)
    ensures
        r@ == rendered(tpl@, var_views(vars@)),
{
    let ghost vs = var_views(vars@);
    let mut out = tpl.to_owned();
    let mut i: usize = 0;
    proof {
        assert(vs.subrange(0, 0).len() == 0);
    }
    while i < vars.len()
        invariant
            vs == var_views(vars@),
            vs.len() == vars@.len(),
            0 <= i <= vars@.len(),
            out@ == rendered(tpl@, vs.subrange(0, i as int)),
        decreases vars@.len() - i,
    {
        proof {
            reveal_strlit("{{");
            reveal_strlit("}}");
        }
        let mut pat = "{{".to_owned();
        pat.append(vars[i].0.as_str());
        pat.append("}}");
        let next = replace_all(out.as_str(), pat.as_str(), vars[i].1.as_str());
        out = next;
        proof {
            let part = vs.subrange(0, i + 1 as int);
            assert(part.drop_last() =~= vs.subrange(0, i as int));
            assert(part.last() == vs[i as int]);
            assert(pat@ == pattern_of(vs[i as int].0));
            assert(out@ == rendered(tpl@, part));
        }
        i = i + 1;
    }
    proof {
        assert(vs.subrange(0, vs.len() as int) =~= vs);
    }
    out
}

} // verus!
