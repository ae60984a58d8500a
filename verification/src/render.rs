//! The format direction of the route value composer: substituting parameter
//! values back into a template's slots, joining encoded query fragments,
//! and assembling the final path-plus-query string.

use vstd::prelude::*;
use crate::chars::{chars_to_string, push_str_chars};
use crate::template::{Part, PartV, param_count, param_names};

verus! {

/// The text produced by substituting `vals`, in order, for the parameters
/// of `ps`: literal parts stand for themselves, and each parameter part
/// consumes the next value.
pub open spec fn render_parts(ps: Seq<PartV>, vals: Seq<Seq<char>>) -> Seq<char>
    decreases ps.len(),
{
    if ps.len() == 0 {
        Seq::empty()
    } else {
        match ps[0] {
            PartV::Lit(l) => l + render_parts(ps.drop_first(), vals),
            PartV::Param(_) => vals.first() + render_parts(ps.drop_first(), vals.drop_first()),
        }
    }
}

/// Substitutes the parameter values into the template's slots, in declared
/// order: the executable form of `render_parts`.
#[verifier::loop_isolation(false)]
pub fn render_path_parts(parts: &Vec<Part>, values: &Vec<String>) -> (r: String)
    requires
        values.deep_view().len() == param_count(parts.deep_view()),
    ensures
        r@ == render_parts(parts.deep_view(), values.deep_view()),
{
    let ghost psv = parts.deep_view();
    let ghost vsv = values.deep_view();
    let mut out: Vec<char> = Vec::new();
    let mut p: usize = 0;
    let mut vi: usize = 0;
    let vlen: usize = values.len();
    proof {
        assert(psv.skip(0) =~= psv);
        assert(vsv.skip(0) =~= vsv);
        assert(out@ + render_parts(psv, vsv) =~= render_parts(psv, vsv));
    }
    while p < parts.len()
        invariant
            p <= parts@.len(),
            vi <= values@.len(),
            render_parts(psv, vsv) == out@ + render_parts(psv.skip(p as int), vsv.skip(vi as int)),
            param_count(psv.skip(p as int)) == vsv.len() - vi,
        decreases parts@.len() - p,
    {
        let ghost tail_parts = psv.skip(p as int);
        let ghost tail_vals = vsv.skip(vi as int);
        let ghost old_out = out@;
        proof {
            assert(tail_parts[0] == psv[p as int]);
            assert(tail_parts.drop_first() =~= psv.skip(p as int + 1));
        }
        match &parts[p] {
            Part::Lit(l) => {
                push_str_chars(&mut out, l.as_str());
                proof {
                    assert(render_parts(tail_parts, tail_vals) == l@ + render_parts(
                        psv.skip(p as int + 1),
                        tail_vals,
                    ));
                    assert(old_out + (l@ + render_parts(psv.skip(p as int + 1), tail_vals)) =~= (
                    old_out + l@) + render_parts(psv.skip(p as int + 1), tail_vals));
                    assert(param_names(tail_parts) == param_names(psv.skip(p as int + 1)));
                }
            },
            Part::Param(n) => {
                proof {
                    assert(param_names(tail_parts) == seq![n@] + param_names(
                        psv.skip(p as int + 1),
                    ));
                    assert(param_count(tail_parts) >= 1);
                    assert(vi < vlen);
                }
                push_str_chars(&mut out, values[vi].as_str());
                proof {
                    assert(tail_vals.first() == vsv[vi as int]);
                    assert(tail_vals.drop_first() =~= vsv.skip(vi as int + 1));
                    assert(render_parts(tail_parts, tail_vals) == vsv[vi as int] + render_parts(
                        psv.skip(p as int + 1),
                        vsv.skip(vi as int + 1),
                    ));
                    assert(old_out + (vsv[vi as int] + render_parts(
                        psv.skip(p as int + 1),
                        vsv.skip(vi as int + 1),
                    )) =~= (old_out + vsv[vi as int]) + render_parts(
                        psv.skip(p as int + 1),
                        vsv.skip(vi as int + 1),
                    ));
                }
                vi = vi + 1;
            },
        }
        p = p + 1;
    }
    proof {
        assert(psv.skip(p as int) =~= Seq::<PartV>::empty());
        assert(render_parts(psv, vsv) =~= out@);
    }
    chars_to_string(&out)
}

/// The query fragments that are present, in field-declaration order.
pub open spec fn present_fragments(fs: Seq<Option<Seq<char>>>) -> Seq<Seq<char>>
    decreases fs.len(),
{
    if fs.len() == 0 {
        Seq::empty()
    } else {
        match fs[0] {
            Some(f) => seq![f] + present_fragments(fs.drop_first()),
            None => present_fragments(fs.drop_first()),
        }
    }
}

/// Fragments joined with `&` between each pair.
pub open spec fn amp_join(fs: Seq<Seq<char>>) -> Seq<char>
    decreases fs.len(),
{
    if fs.len() == 0 {
        Seq::empty()
    } else if fs.len() == 1 {
        fs[0]
    } else {
        fs[0] + seq!['&'] + amp_join(fs.drop_first())
    }
}

proof fn lemma_amp_join_snoc(fs: Seq<Seq<char>>, f: Seq<char>)
    ensures
        fs.len() == 0 ==> amp_join(fs.push(f)) == f,
        fs.len() > 0 ==> amp_join(fs.push(f)) == amp_join(fs) + seq!['&'] + f,
    decreases fs.len(),
{
    if fs.len() == 0 {
        assert(fs.push(f)[0] == f);
    } else if fs.len() == 1 {
        assert(fs.push(f)[0] == fs[0]);
        assert(fs.push(f).drop_first() =~= seq![f]);
        assert(amp_join(seq![f]) == f);
        assert(amp_join(fs) == fs[0]);
    } else {
        assert(fs.push(f)[0] == fs[0]);
        assert(fs.push(f).drop_first() =~= fs.drop_first().push(f));
        lemma_amp_join_snoc(fs.drop_first(), f);
        assert(amp_join(fs.push(f)) == fs[0] + seq!['&'] + (amp_join(fs.drop_first()) + seq!['&']
            + f));
        assert(fs[0] + seq!['&'] + (amp_join(fs.drop_first()) + seq!['&'] + f) =~= (fs[0]
            + seq!['&'] + amp_join(fs.drop_first())) + seq!['&'] + f);
    }
}

proof fn lemma_present_fragments_snoc(fs: Seq<Option<Seq<char>>>, f: Option<Seq<char>>)
    ensures
        f matches Some(x) ==> present_fragments(fs.push(f)) == present_fragments(fs).push(x),
        f is None ==> present_fragments(fs.push(f)) == present_fragments(fs),
    decreases fs.len(),
{
    if fs.len() == 0 {
        assert(fs.push(f)[0] == f);
        assert(fs.push(f).drop_first() =~= Seq::<Option<Seq<char>>>::empty());
        assert(present_fragments(Seq::<Option<Seq<char>>>::empty()) == Seq::<Seq<char>>::empty());
        match f {
            Some(x) => {
                assert(present_fragments(fs.push(f)) =~= present_fragments(fs).push(x));
            },
            None => {},
        }
    } else {
        assert(fs.push(f)[0] == fs[0]);
        assert(fs.push(f).drop_first() =~= fs.drop_first().push(f));
        lemma_present_fragments_snoc(fs.drop_first(), f);
        match f {
            Some(x) => {
                match fs[0] {
                    Some(h) => {
                        assert(present_fragments(fs.push(f)) == seq![h] + present_fragments(
                            fs.drop_first(),
                        ).push(x));
                        assert(seq![h] + present_fragments(fs.drop_first()).push(x) =~= (seq![h]
                            + present_fragments(fs.drop_first())).push(x));
                    },
                    None => {},
                }
            },
            None => {},
        }
    }
}

/// Joins the encoded query fragments of a route value: fragments that are
/// absent contribute nothing; the present ones are joined with `&`, and
/// when none is present there is no query string at all. Overlapping keys
/// in different fragments are kept verbatim, not deduplicated.
#[verifier::loop_isolation(false)]
pub fn join_query_fragments(fragments: &Vec<Option<String>>) -> (r: Option<String>)
    ensures
        present_fragments(fragments.deep_view()).len() == 0 ==> r is None,
        present_fragments(fragments.deep_view()).len() > 0 ==> (r matches Some(s) && s@
            == amp_join(present_fragments(fragments.deep_view()))),
{
    let ghost fv = fragments.deep_view();
    let mut out: Vec<char> = Vec::new();
    let mut any: bool = false;
    let mut i: usize = 0;
    proof {
        assert(fv.take(0) =~= Seq::<Option<Seq<char>>>::empty());
        assert(present_fragments(fv.take(0)) == Seq::<Seq<char>>::empty());
    }
    while i < fragments.len()
        invariant
            i <= fragments@.len(),
            any == (present_fragments(fv.take(i as int)).len() > 0),
            !any ==> out@ == Seq::<char>::empty(),
            any ==> out@ == amp_join(present_fragments(fv.take(i as int))),
        decreases fragments@.len() - i,
    {
        let ghost pre = fv.take(i as int);
        proof {
            assert(fv.take(i as int + 1) =~= pre.push(fv[i as int]));
            lemma_present_fragments_snoc(pre, fv[i as int]);
            match fv[i as int] {
                Some(x) => {
                    lemma_amp_join_snoc(present_fragments(pre), x);
                },
                None => {},
            }
        }
        match &fragments[i] {
            Some(f) => {
                if any {
                    out.push('&');
                }
                push_str_chars(&mut out, f.as_str());
                any = true;
            },
            None => {},
        }
        i = i + 1;
    }
    proof {
        assert(fv.take(fv.len() as int) =~= fv);
    }
    if any {
        Some(chars_to_string(&out))
    } else {
        None
    }
}

/// Appends `?` and the query string to the rendered path, when there is a
/// query string to append.
pub fn render_route(path: &str, query: &Option<String>) -> (r: String)
    ensures
        query is None ==> r@ == path@,
        query matches Some(q) ==> r@ == path@ + seq!['?'] + q@,
{
    let mut out: Vec<char> = Vec::new();
    push_str_chars(&mut out, path);
    match query {
        Some(q) => {
            out.push('?');
            push_str_chars(&mut out, q.as_str());
            proof {
                assert(out@ =~= path@ + seq!['?'] + q@);
            }
        },
        None => {},
    }
    chars_to_string(&out)
}

} // verus!
