//! The matcher: tests a concrete request path against a compiled template
//! and extracts the named parameter captures, and splits an incoming string
//! into its path and query components.

use vstd::prelude::*;
use vstd::string::StrSliceExecFns;
use crate::RouteParseErr;
use crate::chars::{str_to_chars, chars_to_string};
use crate::template::{Part, PartV};

verus! {

/// The number of leading characters of `s` before the first occurrence of
/// `stop` (all of `s` if `stop` does not occur).
pub open spec fn prefix_len_until(s: Seq<char>, stop: char) -> int
    decreases s.len(),
{
    if s.len() == 0 || s[0] == stop {
        0
    } else {
        1 + prefix_len_until(s.drop_first(), stop)
    }
}

/// `prefix_len_until` is the unique index `m` with no `stop` before it that
/// either ends the string or holds `stop`.
pub proof fn lemma_prefix_len_until(s: Seq<char>, stop: char, m: int)
    requires
        0 <= m <= s.len(),
        forall|i: int| 0 <= i < m ==> #[trigger] s[i] != stop,
        m == s.len() || s[m] == stop,
    ensures
        prefix_len_until(s, stop) == m,
    decreases m,
{
    if m == 0 {
    } else {
        assert(s[0] != stop);
        assert forall|i: int| 0 <= i < m - 1 implies #[trigger] s.drop_first()[i] != stop by {
            assert(s.drop_first()[i] == s[i + 1]);
        }
        lemma_prefix_len_until(s.drop_first(), stop, m - 1);
    }
}

/// What `prefix_len_until` returns: the maximal prefix free of `stop`,
/// ended by `stop` when it does not end the string.
pub proof fn lemma_prefix_len_until_props(s: Seq<char>, stop: char)
    ensures
        0 <= prefix_len_until(s, stop) <= s.len(),
        forall|x: int| 0 <= x < prefix_len_until(s, stop) ==> #[trigger] s[x] != stop,
        prefix_len_until(s, stop) < s.len() ==> s[prefix_len_until(s, stop)] == stop,
    decreases s.len(),
{
    if s.len() == 0 || s[0] == stop {
    } else {
        lemma_prefix_len_until_props(s.drop_first(), stop);
        let p = prefix_len_until(s, stop);
        assert(p == 1 + prefix_len_until(s.drop_first(), stop));
        assert forall|x: int| 0 <= x < p implies #[trigger] s[x] != stop by {
            if x > 0 {
                assert(s.drop_first()[x - 1] == s[x]);
            }
        }
        if p < s.len() {
            assert(s.drop_first()[p - 1] == s[p]);
        }
    }
}

/// A path conforms to template parts when there is any way to split it:
/// each literal appears verbatim, and each parameter takes some non-empty
/// run of non-`/` characters.
pub open spec fn parts_matchable(ps: Seq<PartV>, path: Seq<char>) -> bool
    decreases ps.len(),
{
    if ps.len() == 0 {
        path.len() == 0
    } else {
        match ps[0] {
            PartV::Lit(l) => l.len() <= path.len() && path.take(l.len() as int) == l
                && parts_matchable(ps.drop_first(), path.skip(l.len() as int)),
            PartV::Param(n) => exists|k: int|
                1 <= k <= path.len() && (forall|x: int| 0 <= x < k ==> path[x] != '/')
                    && parts_matchable(ps.drop_first(), path.skip(k)),
        }
    }
}

/// Greedy whole-string matching of a path against template parts: a literal
/// must appear verbatim; a parameter captures the maximal non-empty run of
/// non-`/` characters. Returns the named captures in template order, or
/// `None` when the path does not conform.
pub open spec fn greedy_match(ps: Seq<PartV>, path: Seq<char>) -> Option<
    Seq<(Seq<char>, Seq<char>)>,
>
    decreases ps.len(),
{
    if ps.len() == 0 {
        if path.len() == 0 {
            Some(Seq::empty())
        } else {
            None
        }
    } else {
        match ps[0] {
            PartV::Lit(l) => {
                if l.len() <= path.len() && path.take(l.len() as int) == l {
                    greedy_match(ps.drop_first(), path.skip(l.len() as int))
                } else {
                    None
                }
            },
            PartV::Param(n) => {
                let k = prefix_len_until(path, '/');
                if k == 0 {
                    None
                } else {
                    match greedy_match(ps.drop_first(), path.skip(k)) {
                        Some(rest) => Some(seq![(n, path.take(k))] + rest),
                        None => None,
                    }
                }
            },
        }
    }
}

/// The mathematical form of a capture list.
pub open spec fn captures_view(cs: Seq<(String, String)>) -> Seq<(Seq<char>, Seq<char>)> {
    Seq::new(cs.len(), |i: int| (cs[i].0@, cs[i].1@))
}

/// Matches `path` against the compiled parts and returns the named captures
/// in template order, or `NoMatches` when the path does not conform: the
/// executable form of `greedy_match`.
#[verifier::loop_isolation(false)]
pub fn match_chars(parts: &Vec<Part>, path: &str) -> (r: Result<
    Vec<(String, String)>,
    RouteParseErr,
>)
    ensures
        r matches Ok(caps) ==> greedy_match(parts.deep_view(), path@) == Some(
            captures_view(caps@),
        ),
        r matches Err(e) ==> (greedy_match(parts.deep_view(), path@) is None
            && e is NoMatches),
{
    let ghost psv = parts.deep_view();
    let ghost pathv = path@;
    let pv: Vec<char> = str_to_chars(path);
    let mut caps: Vec<(String, String)> = Vec::new();
    let mut p: usize = 0;
    let mut j: usize = 0;
    proof {
        assert(psv.skip(0) =~= psv);
        assert(pathv.skip(0) =~= pathv);
        assert(captures_view(caps@) =~= Seq::<(Seq<char>, Seq<char>)>::empty());
        match greedy_match(psv, pathv) {
            Some(rest) => {
                assert(captures_view(caps@) + rest =~= rest);
            },
            None => {},
        }
    }
    while p < parts.len()
        invariant
            p <= parts@.len(),
            j <= pv@.len(),
            psv == parts.deep_view(),
            pathv == path@,
            pv@ == pathv,
            psv.len() == parts@.len(),
            match greedy_match(psv.skip(p as int), pathv.skip(j as int)) {
                Some(rest) => greedy_match(psv, pathv) == Some(captures_view(caps@) + rest),
                None => greedy_match(psv, pathv) is None,
            },
        decreases parts@.len() - p,
    {
        let ghost tail_parts = psv.skip(p as int);
        let ghost tail_path = pathv.skip(j as int);
        proof {
            assert(tail_parts.len() > 0);
            assert(tail_parts[0] == psv[p as int]);
            assert(tail_parts.drop_first() =~= psv.skip(p as int + 1));
        }
        match &parts[p] {
            Part::Lit(l) => {
                let llen: usize = l.as_str().unicode_len();
                let plen: usize = pv.len();
                if llen > plen - j {
                    proof {
                        assert(l@.len() > tail_path.len());
                        assert(greedy_match(tail_parts, tail_path) is None);
                    }
                    return Err(RouteParseErr::NoMatches);
                }
                let mut m: usize = 0;
                while m < llen
                    invariant
                        m <= llen,
                        llen == l@.len(),
                        plen == pv@.len(),
                        j + llen <= plen,
                        pv@ == pathv,
                        tail_path == pathv.skip(j as int),
                        forall|x: int| 0 <= x < m ==> #[trigger] pathv[j + x] == l@[x],
                    decreases llen - m,
                {
                    if l.as_str().get_char(m) != pv[j + m] {
                        proof {
                            assert(tail_path.take(l@.len() as int)[m as int] == tail_path[
                                m as int
                            ]);
                            assert(tail_path[m as int] == pathv[j + m]);
                            assert(tail_path.take(l@.len() as int) != l@);
                            assert(greedy_match(tail_parts, tail_path) is None);
                        }
                        return Err(RouteParseErr::NoMatches);
                    }
                    m = m + 1;
                }
                proof {
                    assert forall|x: int| 0 <= x < l@.len() implies tail_path.take(
                        l@.len() as int,
                    )[x] == l@[x] by {
                        assert(tail_path.take(l@.len() as int)[x] == tail_path[x]);
                        assert(tail_path[x] == pathv[j + x]);
                    }
                    assert(tail_path.take(l@.len() as int) =~= l@);
                    assert(tail_path.skip(l@.len() as int) =~= pathv.skip(j as int + llen as int));
                    assert(greedy_match(tail_parts, tail_path) == greedy_match(
                        psv.skip(p as int + 1),
                        pathv.skip(j as int + llen as int),
                    ));
                }
                j = j + llen;
            },
            Part::Param(n) => {
                let mut k: usize = j;
                let mut cap: Vec<char> = Vec::new();
                proof {
                    assert(cap@ =~= pathv.subrange(j as int, j as int));
                }
                while k < pv.len() && pv[k] != '/'
                    invariant
                        j <= k <= pv@.len(),
                        pv@ == pathv,
                        cap@ == pathv.subrange(j as int, k as int),
                        forall|x: int| j <= x < k ==> #[trigger] pathv[x] != '/',
                    decreases pv@.len() - k,
                {
                    cap.push(pv[k]);
                    k = k + 1;
                    proof {
                        assert(cap@ =~= pathv.subrange(j as int, k as int));
                    }
                }
                proof {
                    assert(k == pv@.len() || pathv[k as int] == '/');
                    assert forall|x: int| 0 <= x < k - j implies #[trigger] tail_path[x] != '/' by {
                        assert(tail_path[x] == pathv[j + x]);
                    }
                    assert(k - j == tail_path.len() || tail_path[k - j] == '/');
                    lemma_prefix_len_until(tail_path, '/', k as int - j as int);
                }
                if k == j {
                    proof {
                        assert(greedy_match(tail_parts, tail_path) is None);
                    }
                    return Err(RouteParseErr::NoMatches);
                }
                let ghost old_caps = caps@;
                caps.push((n.clone(), chars_to_string(&cap)));
                proof {
                    assert(tail_path.take(k as int - j as int) =~= cap@);
                    assert(tail_path.skip(k as int - j as int) =~= pathv.skip(k as int));
                    assert(captures_view(caps@) =~= captures_view(old_caps).push((n@, cap@)));
                    match greedy_match(psv.skip(p as int + 1), pathv.skip(k as int)) {
                        Some(rest2) => {
                            assert(greedy_match(tail_parts, tail_path) == Some(
                                seq![(n@, cap@)] + rest2,
                            ));
                            assert(captures_view(old_caps) + (seq![(n@, cap@)] + rest2) =~= (
                            captures_view(old_caps).push((n@, cap@))) + rest2);
                        },
                        None => {
                            assert(greedy_match(tail_parts, tail_path) is None);
                        },
                    }
                }
                j = k;
            },
        }
        p = p + 1;
    }
    proof {
        assert(psv.skip(p as int) =~= Seq::<PartV>::empty());
    }
    if j == pv.len() {
        proof {
            assert(pathv.skip(j as int) =~= Seq::<char>::empty());
            assert(greedy_match(psv.skip(p as int), pathv.skip(j as int)) == Some(
                Seq::<(Seq<char>, Seq<char>)>::empty(),
            ));
            match greedy_match(psv.skip(p as int), pathv.skip(j as int)) {
                Some(rest) => {
                    assert(captures_view(caps@) + rest =~= captures_view(caps@));
                },
                None => {},
            }
        }
        Ok(caps)
    } else {
        proof {
            assert(pathv.skip(j as int).len() > 0);
            assert(greedy_match(psv.skip(p as int), pathv.skip(j as int)) is None);
        }
        Err(RouteParseErr::NoMatches)
    }
}

/// Splits an incoming string at its first `?`: the part before it is the
/// path to be matched, the part after it (which may be empty) is the query
/// string. Without a `?` there is no query string at all.
pub fn split_query(app_path: &str) -> (r: (String, Option<String>))
    ensures
        r.0@ == app_path@.take(prefix_len_until(app_path@, '?')),
        prefix_len_until(app_path@, '?') == app_path@.len() ==> r.1 is None,
        prefix_len_until(app_path@, '?') < app_path@.len() ==> (r.1 matches Some(q) && q@
            == app_path@.skip(prefix_len_until(app_path@, '?') + 1)),
{
    let n: usize = app_path.unicode_len();
    let mut q: usize = 0;
    while q < n && app_path.get_char(q) != '?'
        invariant
            q <= n,
            n == app_path@.len(),
            forall|i: int| 0 <= i < q ==> #[trigger] app_path@[i] != '?',
        decreases n - q,
    {
        q = q + 1;
    }
    proof {
        lemma_prefix_len_until(app_path@, '?', q as int);
    }
    let path_part = app_path.substring_char(0, q).to_owned();
    proof {
        assert(app_path@.subrange(0, q as int) =~= app_path@.take(q as int));
    }
    if q < n {
        let query_part = app_path.substring_char(q + 1, n).to_owned();
        proof {
            assert(app_path@.subrange(q as int + 1, n as int) =~= app_path@.skip(q as int + 1));
        }
        (path_part, Some(query_part))
    } else {
        (path_part, None)
    }
}

} // verus!
