//! General properties of the compiler, the matcher and the renderer,
//! stated and proved over their specifications.

use vstd::prelude::*;
use vstd::utf8::is_ascii_chars;
use crate::ident::valid_identifier;
use crate::matcher::{greedy_match, prefix_len_until, lemma_prefix_len_until, lemma_prefix_len_until_props, parts_matchable};
use crate::render::render_parts;
use crate::template::{
    compile_spec, scan_static, scan_name, wf_parts, wf_tail, lemma_wf_tail_drop_first,
    param_names, param_count, PartV, TemplateErrV, regex_of, format_of,
};

verus! {

/// `pattern` and `format` are what compiling `t` yields.
pub open spec fn compiles_to(t: Seq<char>, pattern: Seq<char>, format: Seq<char>) -> bool {
    match compile_spec(t) {
        Ok(ps) => pattern == regex_of(ps) && format == format_of(ps),
        Err(e) => false,
    }
}

/// Compilation is deterministic and idempotent: for one template there is
/// exactly one pattern and one format string, so recompiling the same
/// string always yields identical results.
pub proof fn lemma_compile_deterministic(
    t: Seq<char>,
    p1: Seq<char>,
    f1: Seq<char>,
    p2: Seq<char>,
    f2: Seq<char>,
)
    requires
        compiles_to(t, p1, f1),
        compiles_to(t, p2, f2),
    ensures
        p1 == p2,
        f1 == f2,
{
}

/// A template containing a non-ASCII character always fails with
/// `NonAsciiChars`, before any structural scanning.
pub proof fn lemma_non_ascii_rejected(t: Seq<char>)
    requires
        !is_ascii_chars(t),
    ensures
        compile_spec(t) == Err::<Seq<PartV>, TemplateErrV>(TemplateErrV::NonAsciiChars),
{
}

/// An ASCII template that is empty or does not begin with `/` always fails
/// with `MissingLeadingForwardSlash`.
pub proof fn lemma_missing_leading_slash_rejected(t: Seq<char>)
    requires
        is_ascii_chars(t),
        t.len() == 0 || t[0] != '/',
    ensures
        compile_spec(t) == Err::<Seq<PartV>, TemplateErrV>(
            TemplateErrV::MissingLeadingForwardSlash,
        ),
{
}

proof fn lemma_scan_static_trailing(t: Seq<char>, i: int, lit: Seq<char>, acc: Seq<PartV>)
    requires
        1 <= i <= t.len(),
        t.len() > 0,
        t.last() == '/',
        lit.len() > 0,
        lit.last() == t[i - 1],
    ensures
        !(scan_static(t, i, lit, acc) is Ok),
    decreases t.len() - i,
{
    if i >= t.len() {
        assert(lit.last() == '/');
    } else if t[i] == ':' {
        lemma_scan_name_trailing(t, i + 1, Seq::empty(), acc.push(PartV::Lit(lit)));
    } else {
        lemma_scan_static_trailing(t, i + 1, lit.push(t[i]), acc);
    }
}

proof fn lemma_scan_name_trailing(t: Seq<char>, i: int, name: Seq<char>, acc: Seq<PartV>)
    requires
        1 <= i <= t.len(),
        t.len() > 0,
        t.last() == '/',
        t[i - 1] != '/',
    ensures
        !(scan_name(t, i, name, acc) is Ok),
    decreases t.len() - i,
{
    if i >= t.len() {
        assert(t[i - 1] == t.last());
        assert(false);
    } else if t[i] == '/' {
        if valid_identifier(name) {
            lemma_scan_static_trailing(t, i + 1, seq!['/'], acc.push(PartV::Param(name)));
        }
    } else {
        lemma_scan_name_trailing(t, i + 1, name.push(t[i]), acc);
    }
}

/// A template that ends with `/` never compiles: the dangling `/` after
/// its last segment is rejected.
pub proof fn lemma_trailing_slash_rejected(t: Seq<char>)
    requires
        t.len() > 0,
        t.last() == '/',
    ensures
        !(compile_spec(t) is Ok),
{
    if is_ascii_chars(t) && t[0] == '/' {
        lemma_scan_static_trailing(t, 1, seq!['/'], Seq::empty());
    }
}

proof fn lemma_scan_static_err_kinds(t: Seq<char>, i: int, lit: Seq<char>, acc: Seq<PartV>)
    ensures
        scan_static(t, i, lit, acc) matches Err(e) ==> (e is InvalidIdentifier
            || e is InvalidTrailingSlash),
    decreases t.len() - i,
{
    if i >= t.len() {
    } else if t[i] == ':' {
        lemma_scan_name_err_kinds(t, i + 1, Seq::empty(), acc.push(PartV::Lit(lit)));
    } else {
        lemma_scan_static_err_kinds(t, i + 1, lit.push(t[i]), acc);
    }
}

proof fn lemma_scan_name_err_kinds(t: Seq<char>, i: int, name: Seq<char>, acc: Seq<PartV>)
    ensures
        scan_name(t, i, name, acc) matches Err(e) ==> (e is InvalidIdentifier
            || e is InvalidTrailingSlash),
    decreases t.len() - i,
{
    if i >= t.len() {
    } else if t[i] == '/' {
        if valid_identifier(name) {
            lemma_scan_static_err_kinds(t, i + 1, seq!['/'], acc.push(PartV::Param(name)));
        }
    } else {
        lemma_scan_name_err_kinds(t, i + 1, name.push(t[i]), acc);
    }
}

/// An ASCII template that begins with `/` and ends with `/` fails with
/// `InvalidTrailingSlash`, unless one of its parameter names is already
/// not a legal identifier, in which case that error comes first.
pub proof fn lemma_trailing_slash_error(t: Seq<char>)
    requires
        is_ascii_chars(t),
        t.len() > 0,
        t[0] == '/',
        t.last() == '/',
    ensures
        compile_spec(t) matches Err(e) && (e is InvalidIdentifier || e == (
        TemplateErrV::InvalidTrailingSlash)),
        compile_spec(t) matches Err(TemplateErrV::InvalidIdentifier(n)) ==> !valid_identifier(n),
{
    lemma_trailing_slash_rejected(t);
    lemma_scan_static_err_kinds(t, 1, seq!['/'], Seq::empty());
    lemma_invalid_identifier_sound(t);
}

proof fn lemma_scan_static_ident_sound(t: Seq<char>, i: int, lit: Seq<char>, acc: Seq<PartV>)
    ensures
        scan_static(t, i, lit, acc) matches Err(TemplateErrV::InvalidIdentifier(n))
            ==> !valid_identifier(n),
    decreases t.len() - i,
{
    if i >= t.len() {
    } else if t[i] == ':' {
        lemma_scan_name_ident_sound(t, i + 1, Seq::empty(), acc.push(PartV::Lit(lit)));
    } else {
        lemma_scan_static_ident_sound(t, i + 1, lit.push(t[i]), acc);
    }
}

proof fn lemma_scan_name_ident_sound(t: Seq<char>, i: int, name: Seq<char>, acc: Seq<PartV>)
    ensures
        scan_name(t, i, name, acc) matches Err(TemplateErrV::InvalidIdentifier(n))
            ==> !valid_identifier(n),
    decreases t.len() - i,
{
    if i >= t.len() {
    } else if t[i] == '/' {
        if valid_identifier(name) {
            lemma_scan_static_ident_sound(t, i + 1, seq!['/'], acc.push(PartV::Param(name)));
        }
    } else {
        lemma_scan_name_ident_sound(t, i + 1, name.push(t[i]), acc);
    }
}

/// An `InvalidIdentifier` error always carries a name that is indeed not a
/// legal identifier (one that is empty, begins with a digit or an
/// underscore, or contains an illegal character).
pub proof fn lemma_invalid_identifier_sound(t: Seq<char>)
    ensures
        compile_spec(t) matches Err(TemplateErrV::InvalidIdentifier(n)) ==> !valid_identifier(n),
{
    if is_ascii_chars(t) && t.len() > 0 && t[0] == '/' {
        lemma_scan_static_ident_sound(t, 1, seq!['/'], Seq::empty());
    }
}

proof fn lemma_scan_name_all_chars(te: Seq<char>, j: int, name: Seq<char>, acc: Seq<PartV>)
    requires
        0 <= j <= te.len(),
        forall|k: int| j <= k < te.len() ==> te[k] != '/',
    ensures
        scan_name(te, j, name, acc) == (if valid_identifier(name + te.skip(j)) {
            Ok::<Seq<PartV>, TemplateErrV>(acc.push(PartV::Param(name + te.skip(j))))
        } else {
            Err(TemplateErrV::InvalidIdentifier(name + te.skip(j)))
        }),
    decreases te.len() - j,
{
    if j >= te.len() {
        assert(name + te.skip(j) =~= name);
    } else {
        assert(te[j] != '/');
        lemma_scan_name_all_chars(te, j + 1, name.push(te[j]), acc);
        assert(name.push(te[j]) + te.skip(j + 1) =~= name + te.skip(j));
    }
}

proof fn lemma_scan_static_append(t: Seq<char>, n: Seq<char>, i: int, lit: Seq<char>, acc: Seq<
    PartV,
>)
    requires
        0 <= i <= t.len(),
        forall|k: int| 0 <= k < n.len() ==> n[k] != '/',
        scan_static(t, i, lit, acc) matches Ok(ps) && ps.last() is Lit,
    ensures
        scan_static(t + seq![':'] + n, i, lit, acc) == (if valid_identifier(n) {
            Ok::<Seq<PartV>, TemplateErrV>(
                scan_static(t, i, lit, acc)->Ok_0.push(PartV::Param(n)),
            )
        } else {
            Err(TemplateErrV::InvalidIdentifier(n))
        }),
    decreases t.len() - i,
{
    let te = t + seq![':'] + n;
    assert(te.len() == t.len() + 1 + n.len());
    assert(te[t.len() as int] == ':');
    if i >= t.len() {
        let acc2 = acc.push(PartV::Lit(lit));
        assert(scan_static(te, i, lit, acc) == scan_name(te, i + 1, Seq::empty(), acc2));
        assert forall|k: int| i + 1 <= k < te.len() implies te[k] != '/' by {
            assert(te[k] == n[k - (t.len() + 1)]);
        }
        lemma_scan_name_all_chars(te, i + 1, Seq::empty(), acc2);
        assert(Seq::<char>::empty() + te.skip(i + 1) =~= n);
    } else if t[i] == ':' {
        assert(te[i] == t[i]);
        lemma_scan_name_append(t, n, i + 1, Seq::empty(), acc.push(PartV::Lit(lit)));
    } else {
        assert(te[i] == t[i]);
        lemma_scan_static_append(t, n, i + 1, lit.push(t[i]), acc);
    }
}

proof fn lemma_scan_name_append(t: Seq<char>, n: Seq<char>, i: int, name: Seq<char>, acc: Seq<
    PartV,
>)
    requires
        0 <= i <= t.len(),
        forall|k: int| 0 <= k < n.len() ==> n[k] != '/',
        scan_name(t, i, name, acc) matches Ok(ps) && ps.last() is Lit,
    ensures
        scan_name(t + seq![':'] + n, i, name, acc) == (if valid_identifier(n) {
            Ok::<Seq<PartV>, TemplateErrV>(scan_name(t, i, name, acc)->Ok_0.push(PartV::Param(n)))
        } else {
            Err(TemplateErrV::InvalidIdentifier(n))
        }),
    decreases t.len() - i,
{
    let te = t + seq![':'] + n;
    if i >= t.len() {
        assert(false);
    } else if t[i] == '/' {
        assert(te[i] == t[i]);
        lemma_scan_static_append(t, n, i + 1, seq!['/'], acc.push(PartV::Param(name)));
    } else {
        assert(te[i] == t[i]);
        lemma_scan_name_append(t, n, i + 1, name.push(t[i]), acc);
    }
}

/// Appending one more parameter to a valid template that ends in a literal
/// segment: when the new final parameter's name is not a legal identifier
/// (it is empty, begins with a digit or an underscore, or contains an
/// illegal character), compilation fails with `InvalidIdentifier` carrying
/// that name; with a legal name it succeeds and appends the parameter.
pub proof fn lemma_final_param_identifier(t: Seq<char>, n: Seq<char>)
    requires
        compile_spec(t) matches Ok(ps) && ps.last() is Lit,
        is_ascii_chars(n),
        forall|k: int| 0 <= k < n.len() ==> n[k] != '/',
    ensures
        compile_spec(t + seq![':'] + n) == (if valid_identifier(n) {
            Ok::<Seq<PartV>, TemplateErrV>(compile_spec(t)->Ok_0.push(PartV::Param(n)))
        } else {
            Err(TemplateErrV::InvalidIdentifier(n))
        }),
{
    let te = t + seq![':'] + n;
    assert(is_ascii_chars(t));
    assert(t.len() > 0 && t[0] == '/');
    assert forall|k: int| 0 <= k < te.len() implies '\0' <= #[trigger] te[k] <= '\u{7f}' by {
        if k < t.len() {
            assert(te[k] == t[k]);
        } else if k == t.len() {
            assert(te[k] == ':');
        } else {
            assert(te[k] == n[k - (t.len() + 1)]);
        }
    }
    assert(te[0] == t[0]);
    lemma_scan_static_append(t, n, 1, seq!['/'], Seq::empty());
}

proof fn lemma_roundtrip_rec(ps: Seq<PartV>, vals: Seq<Seq<char>>)
    requires
        wf_tail(ps),
        vals.len() == param_count(ps),
        forall|i: int| 0 <= i < vals.len() ==> (#[trigger] vals[i]).len() > 0,
        forall|i: int, j: int|
            0 <= i < vals.len() && 0 <= j < vals[i].len() ==> #[trigger] vals[i][j] != '/',
    ensures
        greedy_match(ps, render_parts(ps, vals)) == Some(param_names(ps).zip_with(vals)),
    decreases ps.len(),
{
    let path = render_parts(ps, vals);
    if ps.len() == 0 {
        assert(param_names(ps) == Seq::<Seq<char>>::empty());
        assert(vals.len() == 0);
        assert(path == Seq::<char>::empty());
        assert(param_names(ps).zip_with(vals) =~= Seq::<(Seq<char>, Seq<char>)>::empty());
    } else {
        let rest = ps.drop_first();
        lemma_wf_tail_drop_first(ps);
        match ps[0] {
            PartV::Lit(l) => {
                assert(param_names(ps) == param_names(rest));
                lemma_roundtrip_rec(rest, vals);
                let cont = render_parts(rest, vals);
                assert(path == l + cont);
                assert(l.len() <= path.len());
                assert(path.take(l.len() as int) =~= l);
                assert(path.skip(l.len() as int) =~= cont);
                assert(greedy_match(ps, path) == greedy_match(rest, cont));
            },
            PartV::Param(n) => {
                let v0 = vals.first();
                let vals_rest = vals.drop_first();
                assert(param_names(ps) == seq![n] + param_names(rest));
                assert(vals.len() >= 1);
                assert(vals_rest.len() == param_count(rest));
                assert forall|i: int|
                    0 <= i < vals_rest.len() implies (#[trigger] vals_rest[i]).len() > 0 by {
                    assert(vals_rest[i] == vals[i + 1]);
                }
                assert forall|i: int, j: int|
                    0 <= i < vals_rest.len() && 0 <= j < vals_rest[i].len() implies #[trigger]
                vals_rest[i][j] != '/' by {
                    assert(vals_rest[i] == vals[i + 1]);
                    assert(vals[i + 1][j] != '/');
                }
                lemma_roundtrip_rec(rest, vals_rest);
                let cont = render_parts(rest, vals_rest);
                assert(path == v0 + cont);
                if rest.len() > 0 {
                    assert(rest[0] == ps[1]);
                    assert(ps[0] is Param && 0 < ps.len() - 1);
                    assert(ps[1] matches PartV::Lit(l1) && l1.len() > 0 && l1[0] == '/');
                    match rest[0] {
                        PartV::Lit(l1) => {
                            assert(cont == l1 + render_parts(rest.drop_first(), vals_rest));
                            assert(cont.len() > 0 && cont[0] == '/');
                        },
                        PartV::Param(m) => {
                            assert(false);
                        },
                    }
                } else {
                    assert(cont == Seq::<char>::empty());
                }
                assert forall|x: int| 0 <= x < v0.len() implies #[trigger] path[x] != '/' by {
                    assert(path[x] == vals[0][x]);
                }
                assert(v0.len() == path.len() || path[v0.len() as int] == '/');
                lemma_prefix_len_until(path, '/', v0.len() as int);
                assert(prefix_len_until(path, '/') == v0.len());
                assert(v0.len() > 0);
                assert(path.take(v0.len() as int) =~= v0);
                assert(path.skip(v0.len() as int) =~= cont);
                assert(greedy_match(rest, cont) == Some(param_names(rest).zip_with(vals_rest)));
                assert(greedy_match(ps, path) == Some(
                    seq![(n, v0)] + param_names(rest).zip_with(vals_rest),
                ));
                assert(seq![(n, v0)] + param_names(rest).zip_with(vals_rest) =~= (seq![n]
                    + param_names(rest)).zip_with(vals));
            },
        }
    }
}

/// Greedy matching is sound and complete for well-formed template parts:
/// taking the maximal non-`/` run for each parameter finds a match exactly
/// when some split of the path conforms to the template.
pub proof fn lemma_greedy_match_complete(ps: Seq<PartV>, path: Seq<char>)
    requires
        wf_tail(ps),
    ensures
        parts_matchable(ps, path) <==> (greedy_match(ps, path) is Some),
    decreases ps.len(),
{
    if ps.len() == 0 {
    } else {
        let rest = ps.drop_first();
        lemma_wf_tail_drop_first(ps);
        match ps[0] {
            PartV::Lit(l) => {
                if l.len() <= path.len() && path.take(l.len() as int) == l {
                    lemma_greedy_match_complete(rest, path.skip(l.len() as int));
                }
            },
            PartV::Param(n) => {
                let kg = prefix_len_until(path, '/');
                lemma_prefix_len_until_props(path, '/');
                if greedy_match(ps, path) is Some {
                    assert(1 <= kg <= path.len());
                    lemma_greedy_match_complete(rest, path.skip(kg));
                    assert(parts_matchable(rest, path.skip(kg)));
                    assert(1 <= kg <= path.len() && (forall|x: int|
                        0 <= x < kg ==> path[x] != '/') && parts_matchable(rest, path.skip(kg)));
                    assert(parts_matchable(ps, path));
                }
                if parts_matchable(ps, path) {
                    let k = choose|k: int|
                        1 <= k <= path.len() && (forall|x: int| 0 <= x < k ==> path[x] != '/')
                            && parts_matchable(rest, path.skip(k));
                    assert(kg >= k) by {
                        if kg < k {
                            assert(path[kg] == '/');
                            assert(path[kg] != '/');
                        }
                    }
                    if rest.len() == 0 {
                        assert(path.skip(k).len() == 0);
                        assert(k == path.len());
                        assert(kg == k);
                    } else {
                        assert(ps[0] is Param && 0 < ps.len() - 1);
                        assert(ps[1] matches PartV::Lit(l1) && l1.len() > 0 && l1[0] == '/');
                        match rest[0] {
                            PartV::Lit(l1) => {
                                assert(rest[0] == ps[1]);
                                assert(path.skip(k).take(l1.len() as int) == l1);
                                assert(path.skip(k).take(l1.len() as int)[0] == path.skip(k)[0]);
                                assert(path[k] == '/');
                                if k < kg {
                                    assert(path[k] != '/');
                                }
                                assert(k == kg);
                            },
                            PartV::Param(m) => {
                                assert(false);
                            },
                        }
                    }
                    lemma_greedy_match_complete(rest, path.skip(kg));
                    assert(greedy_match(rest, path.skip(kg)) is Some);
                    assert(greedy_match(ps, path) is Some);
                }
            },
        }
    }
}

/// The render/match round trip is lossless: rendering any non-empty,
/// `/`-free parameter values into a well-formed compiled template, and
/// matching the rendered path against the same template, returns exactly
/// those values under their parameter names.
pub proof fn lemma_render_match_roundtrip(ps: Seq<PartV>, vals: Seq<Seq<char>>)
    requires
        wf_parts(ps),
        vals.len() == param_count(ps),
        forall|i: int| 0 <= i < vals.len() ==> (#[trigger] vals[i]).len() > 0,
        forall|i: int, j: int|
            0 <= i < vals.len() && 0 <= j < vals[i].len() ==> #[trigger] vals[i][j] != '/',
    ensures
        greedy_match(ps, render_parts(ps, vals)) == Some(param_names(ps).zip_with(vals)),
{
    lemma_roundtrip_rec(ps, vals);
}

} // verus!
