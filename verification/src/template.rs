//! The template compiler: a single left-to-right scan over a route template
//! such as `/users/:user_id`, producing the template's parts (literal text
//! and named parameters), a matcher pattern, and a format string.

use vstd::prelude::*;
use vstd::utf8::is_ascii_chars;
use crate::PathToRegexError;
use crate::chars::{str_to_chars, chars_to_string, push_str_chars};
use crate::ident::{valid_identifier, chars_valid_identifier};

verus! {

/// One piece of a compiled template: literal text, or a named parameter
/// that captures one or more non-`/` characters.
pub enum Part {
    Lit(String),
    Param(String),
}

/// The mathematical form of a `Part`.
pub enum PartV {
    Lit(Seq<char>),
    Param(Seq<char>),
}

impl View for Part {
    type V = PartV;

    open spec fn view(&self) -> PartV {
        match self {
            Part::Lit(s) => PartV::Lit(s@),
            Part::Param(s) => PartV::Param(s@),
        }
    }
}

impl DeepView for Part {
    type V = PartV;

    open spec fn deep_view(&self) -> PartV {
        self.view()
    }
}

/// The mathematical form of a `PathToRegexError`.
pub enum TemplateErrV {
    MissingLeadingForwardSlash,
    NonAsciiChars,
    InvalidIdentifier(Seq<char>),
    InvalidTrailingSlash,
}

impl View for PathToRegexError {
    type V = TemplateErrV;

    open spec fn view(&self) -> TemplateErrV {
        match self {
            PathToRegexError::MissingLeadingForwardSlash => TemplateErrV::MissingLeadingForwardSlash,
            PathToRegexError::NonAsciiChars => TemplateErrV::NonAsciiChars,
            PathToRegexError::InvalidIdentifier(s) => TemplateErrV::InvalidIdentifier(s@),
            PathToRegexError::InvalidTrailingSlash => TemplateErrV::InvalidTrailingSlash,
        }
    }
}

/// The scanner in its literal state: `lit` is the literal text accumulated
/// since the last parameter (or the leading `/`), `acc` the parts already
/// finished. A `:` opens a parameter; end of input closes the template,
/// which must not end in `/`.
pub open spec fn scan_static(
    t: Seq<char>,
    i: int,
    lit: Seq<char>,
    acc: Seq<PartV>,
) -> Result<Seq<PartV>, TemplateErrV>
    decreases t.len() - i,
{
    if i >= t.len() {
        if lit.len() > 0 && lit.last() == '/' {
            Err(TemplateErrV::InvalidTrailingSlash)
        } else {
            Ok(acc.push(PartV::Lit(lit)))
        }
    } else if t[i] == ':' {
        scan_name(t, i + 1, Seq::empty(), acc.push(PartV::Lit(lit)))
    } else {
        scan_static(t, i + 1, lit.push(t[i]), acc)
    }
}

/// The scanner in its parameter state: `name` is the parameter name
/// accumulated since the opening `:`. A `/` or end of input closes the
/// parameter, whose name must then be a legal identifier.
pub open spec fn scan_name(
    t: Seq<char>,
    i: int,
    name: Seq<char>,
    acc: Seq<PartV>,
) -> Result<Seq<PartV>, TemplateErrV>
    decreases t.len() - i,
{
    if i >= t.len() {
        if valid_identifier(name) {
            Ok(acc.push(PartV::Param(name)))
        } else {
            Err(TemplateErrV::InvalidIdentifier(name))
        }
    } else if t[i] == '/' {
        if valid_identifier(name) {
            scan_static(t, i + 1, seq!['/'], acc.push(PartV::Param(name)))
        } else {
            Err(TemplateErrV::InvalidIdentifier(name))
        }
    } else {
        scan_name(t, i + 1, name.push(t[i]), acc)
    }
}

/// What compiling a template yields: its parts, or the first error.
/// The ASCII check comes before any structural scanning; then the template
/// must begin with `/`; then the scanner runs from the second character.
pub open spec fn compile_spec(t: Seq<char>) -> Result<Seq<PartV>, TemplateErrV> {
    if !is_ascii_chars(t) {
        Err(TemplateErrV::NonAsciiChars)
    } else if t.len() == 0 || t[0] != '/' {
        Err(TemplateErrV::MissingLeadingForwardSlash)
    } else {
        scan_static(t, 1, seq!['/'], Seq::empty())
    }
}

/// Structure that every compiled template's parts have, and that the
/// matcher relies on: literals are non-empty, every parameter is followed
/// by a literal beginning with `/` or stands last, parameter names are
/// legal identifiers, and the whole begins with a literal whose first
/// character is `/`.
pub open spec fn wf_tail(ps: Seq<PartV>) -> bool {
    &&& forall|i: int|
        0 <= i < ps.len() ==> ((#[trigger] ps[i]) matches PartV::Lit(l) ==> l.len() > 0)
    &&& forall|i: int|
        0 <= i < ps.len() ==> ((#[trigger] ps[i]) matches PartV::Param(n) ==> valid_identifier(n))
    &&& forall|i: int|
        0 <= i < ps.len() - 1 ==> ((#[trigger] ps[i]) is Param ==> (ps[i + 1] matches PartV::Lit(l)
            && l.len() > 0
            && l[0] == '/'))
}

/// Well-formedness of a full compiled template.
pub open spec fn wf_parts(ps: Seq<PartV>) -> bool {
    &&& ps.len() > 0
    &&& (ps[0] matches PartV::Lit(l) && l.len() > 0 && l[0] == '/')
    &&& wf_tail(ps)
}

/// Tail well-formedness carries over to the tail of the tail.
pub proof fn lemma_wf_tail_drop_first(ps: Seq<PartV>)
    requires
        wf_tail(ps),
        ps.len() > 0,
    ensures
        wf_tail(ps.drop_first()),
{
    let rest = ps.drop_first();
    assert forall|i: int|
        0 <= i < rest.len() implies ((#[trigger] rest[i]) matches PartV::Lit(l) ==> l.len()
        > 0) by {
        assert(rest[i] == ps[i + 1]);
    }
    assert forall|i: int|
        0 <= i < rest.len() implies ((#[trigger] rest[i]) matches PartV::Param(n)
        ==> valid_identifier(n)) by {
        assert(rest[i] == ps[i + 1]);
    }
    assert forall|i: int|
        0 <= i < rest.len() - 1 implies ((#[trigger] rest[i]) is Param ==> (rest[i + 1]
        matches PartV::Lit(l) && l.len() > 0 && l[0] == '/')) by {
        assert(rest[i] == ps[i + 1]);
        assert(rest[i + 1] == ps[i + 2]);
    }
}

/// The names of the parameters of `ps`, in order.
pub open spec fn param_names(ps: Seq<PartV>) -> Seq<Seq<char>>
    decreases ps.len(),
{
    if ps.len() == 0 {
        Seq::empty()
    } else {
        match ps[0] {
            PartV::Param(n) => seq![n] + param_names(ps.drop_first()),
            PartV::Lit(_) => param_names(ps.drop_first()),
        }
    }
}

/// How many parameters `ps` has.
pub open spec fn param_count(ps: Seq<PartV>) -> int {
    param_names(ps).len() as int
}

/// The matcher-pattern text contributed by one part: literal text stands
/// for itself; a parameter becomes a named group matching one or more
/// non-`/` characters.
pub open spec fn part_regex(p: PartV) -> Seq<char> {
    match p {
        PartV::Lit(l) => l,
        PartV::Param(n) => seq!['(', '?', 'P', '<'] + n + seq!['>', '[', '^', '/', ']', '+', ')'],
    }
}

/// The concatenated pattern text of all parts.
pub open spec fn parts_regex(ps: Seq<PartV>) -> Seq<char>
    decreases ps.len(),
{
    if ps.len() == 0 {
        Seq::empty()
    } else {
        part_regex(ps[0]) + parts_regex(ps.drop_first())
    }
}

/// The full pattern text of a compiled template, anchored at both ends.
pub open spec fn regex_of(ps: Seq<PartV>) -> Seq<char> {
    seq!['^'] + parts_regex(ps) + seq!['$']
}

/// The format-string text contributed by one part: literal text stands for
/// itself; a parameter becomes a `{name}` substitution slot.
pub open spec fn part_format(p: PartV) -> Seq<char> {
    match p {
        PartV::Lit(l) => l,
        PartV::Param(n) => seq!['{'] + n + seq!['}'],
    }
}

/// The format string of a compiled template.
pub open spec fn format_of(ps: Seq<PartV>) -> Seq<char>
    decreases ps.len(),
{
    if ps.len() == 0 {
        Seq::empty()
    } else {
        part_format(ps[0]) + format_of(ps.drop_first())
    }
}

/// Appending a part extends the parameter names by that part's name, when
/// it has one.
pub proof fn lemma_param_names_snoc(ps: Seq<PartV>, p: PartV)
    ensures
        p matches PartV::Param(n) ==> param_names(ps.push(p)) == param_names(ps).push(n),
        p is Lit ==> param_names(ps.push(p)) == param_names(ps),
    decreases ps.len(),
{
    if ps.len() == 0 {
        assert(ps.push(p)[0] == p);
        assert(ps.push(p).drop_first() =~= Seq::<PartV>::empty());
        assert(param_names(Seq::<PartV>::empty()) == Seq::<Seq<char>>::empty());
        match p {
            PartV::Param(n) => {
                assert(param_names(ps.push(p)) == seq![n] + Seq::<Seq<char>>::empty());
                assert(seq![n] + Seq::<Seq<char>>::empty() =~= param_names(ps).push(n));
            },
            PartV::Lit(_) => {},
        }
    } else {
        assert(ps.push(p)[0] == ps[0]);
        assert(ps.push(p).drop_first() =~= ps.drop_first().push(p));
        lemma_param_names_snoc(ps.drop_first(), p);
        match p {
            PartV::Param(n) => {
                match ps[0] {
                    PartV::Param(h) => {
                        assert(param_names(ps.push(p)) == seq![h] + param_names(
                            ps.drop_first(),
                        ).push(n));
                        assert(seq![h] + param_names(ps.drop_first()).push(n) =~= (seq![h]
                            + param_names(ps.drop_first())).push(n));
                    },
                    PartV::Lit(_) => {},
                }
            },
            PartV::Lit(_) => {},
        }
    }
}

proof fn lemma_parts_regex_snoc(ps: Seq<PartV>, p: PartV)
    ensures
        parts_regex(ps.push(p)) == parts_regex(ps) + part_regex(p),
    decreases ps.len(),
{
    if ps.len() == 0 {
        assert(ps.push(p)[0] == p);
        assert(ps.push(p).drop_first() =~= Seq::<PartV>::empty());
        assert(parts_regex(Seq::<PartV>::empty()) == Seq::<char>::empty());
        assert(parts_regex(ps.push(p)) == part_regex(p) + Seq::<char>::empty());
        assert(parts_regex(ps) == Seq::<char>::empty());
        assert(part_regex(p) + Seq::<char>::empty() =~= Seq::<char>::empty() + part_regex(p));
    } else {
        assert(ps.push(p).drop_first() =~= ps.drop_first().push(p));
        lemma_parts_regex_snoc(ps.drop_first(), p);
        assert(ps.push(p)[0] == ps[0]);
        assert(parts_regex(ps.push(p)) == part_regex(ps[0]) + parts_regex(ps.drop_first().push(p)));
        assert(parts_regex(ps.push(p)) == part_regex(ps[0]) + (parts_regex(ps.drop_first())
            + part_regex(p)));
        assert(part_regex(ps[0]) + (parts_regex(ps.drop_first()) + part_regex(p)) =~= (part_regex(
            ps[0],
        ) + parts_regex(ps.drop_first())) + part_regex(p));
    }
}

proof fn lemma_format_of_snoc(ps: Seq<PartV>, p: PartV)
    ensures
        format_of(ps.push(p)) == format_of(ps) + part_format(p),
    decreases ps.len(),
{
    if ps.len() == 0 {
        assert(ps.push(p)[0] == p);
        assert(ps.push(p).drop_first() =~= Seq::<PartV>::empty());
        assert(format_of(Seq::<PartV>::empty()) == Seq::<char>::empty());
        assert(format_of(ps.push(p)) == part_format(p) + Seq::<char>::empty());
        assert(format_of(ps) == Seq::<char>::empty());
        assert(part_format(p) + Seq::<char>::empty() =~= Seq::<char>::empty() + part_format(p));
    } else {
        assert(ps.push(p).drop_first() =~= ps.drop_first().push(p));
        lemma_format_of_snoc(ps.drop_first(), p);
        assert(ps.push(p)[0] == ps[0]);
        assert(format_of(ps.push(p)) == part_format(ps[0]) + format_of(ps.drop_first().push(p)));
        assert(format_of(ps.push(p)) == part_format(ps[0]) + (format_of(ps.drop_first())
            + part_format(p)));
        assert(part_format(ps[0]) + (format_of(ps.drop_first()) + part_format(p)) =~= (part_format(
            ps[0],
        ) + format_of(ps.drop_first())) + part_format(p));
    }
}

/// Renders the matcher pattern of `parts` as text.
pub fn regex_string(parts: &Vec<Part>) -> (r: String)
    ensures
        r@ == regex_of(parts.deep_view()),
{
    let ghost psv = parts.deep_view();
    let mut out: Vec<char> = Vec::new();
    out.push('^');
    let mut k: usize = 0;
    proof {
        assert(psv.take(0) =~= Seq::<PartV>::empty());
        assert(out@ =~= seq!['^'] + parts_regex(psv.take(0)));
    }
    while k < parts.len()
        invariant
            k <= parts@.len(),
            psv == parts.deep_view(),
            psv.len() == parts@.len(),
            out@ == seq!['^'] + parts_regex(psv.take(k as int)),
        decreases parts@.len() - k,
    {
        let ghost pre = psv.take(k as int);
        match &parts[k] {
            Part::Lit(l) => {
                push_str_chars(&mut out, l.as_str());
            },
            Part::Param(n) => {
                out.push('(');
                out.push('?');
                out.push('P');
                out.push('<');
                push_str_chars(&mut out, n.as_str());
                out.push('>');
                out.push('[');
                out.push('^');
                out.push('/');
                out.push(']');
                out.push('+');
                out.push(')');
            },
        }
        proof {
            lemma_parts_regex_snoc(pre, psv[k as int]);
            assert(psv.take(k as int + 1) =~= pre.push(psv[k as int]));
            assert(out@ =~= seq!['^'] + parts_regex(psv.take(k as int + 1)));
        }
        k = k + 1;
    }
    out.push('$');
    proof {
        assert(psv.take(psv.len() as int) =~= psv);
        assert(out@ =~= regex_of(psv));
    }
    chars_to_string(&out)
}

/// Renders the format string of `parts` as text.
pub fn format_string(parts: &Vec<Part>) -> (r: String)
    ensures
        r@ == format_of(parts.deep_view()),
{
    let ghost psv = parts.deep_view();
    let mut out: Vec<char> = Vec::new();
    let mut k: usize = 0;
    proof {
        assert(psv.take(0) =~= Seq::<PartV>::empty());
        assert(out@ =~= format_of(psv.take(0)));
    }
    while k < parts.len()
        invariant
            k <= parts@.len(),
            psv == parts.deep_view(),
            psv.len() == parts@.len(),
            out@ == format_of(psv.take(k as int)),
        decreases parts@.len() - k,
    {
        let ghost pre = psv.take(k as int);
        match &parts[k] {
            Part::Lit(l) => {
                push_str_chars(&mut out, l.as_str());
            },
            Part::Param(n) => {
                out.push('{');
                push_str_chars(&mut out, n.as_str());
                out.push('}');
            },
        }
        proof {
            lemma_format_of_snoc(pre, psv[k as int]);
            assert(psv.take(k as int + 1) =~= pre.push(psv[k as int]));
            assert(out@ =~= format_of(psv.take(k as int + 1)));
        }
        k = k + 1;
    }
    proof {
        assert(psv.take(psv.len() as int) =~= psv);
    }
    chars_to_string(&out)
}

/// Compiles a route template into its matcher pattern and its format
/// string, or reports the first error of the scan.
pub fn path_to_regex(path: &str) -> (r: Result<(String, String), PathToRegexError>)
    ensures
        r matches Ok(p) ==> (compile_spec(path@) matches Ok(ps) && p.0@ == regex_of(ps) && p.1@
            == format_of(ps)),
        r matches Err(e) ==> (compile_spec(path@) matches Err(ev) && ev == e@),
{
    match compile_parts(path) {
        Ok(parts) => Ok((regex_string(&parts), format_string(&parts))),
        Err(e) => Err(e),
    }
}

proof fn lemma_scan_static_wf(t: Seq<char>, i: int, lit: Seq<char>, acc: Seq<PartV>)
    requires
        wf_tail(acc),
        lit.len() > 0,
        acc.len() == 0 ==> lit[0] == '/',
        acc.len() > 0 ==> ((acc.last() is Param) ==> lit[0] == '/'),
        acc.len() > 0 ==> (acc[0] matches PartV::Lit(l) && l.len() > 0 && l[0] == '/'),
    ensures
        scan_static(t, i, lit, acc) matches Ok(ps) ==> wf_parts(ps),
    decreases t.len() - i,
{
    if i >= t.len() {
        let ps = acc.push(PartV::Lit(lit));
        assert forall|j: int| 0 <= j < ps.len() - 1 && (#[trigger] ps[j]) is Param implies (ps[j + 1]
            matches PartV::Lit(l)
            && l.len() > 0
            && l[0] == '/') by {
            if j < acc.len() - 1 {
                assert(ps[j] == acc[j]);
                assert(ps[j + 1] == acc[j + 1]);
            } else {
                assert(ps[j] == acc.last());
                assert(ps[j + 1] == PartV::Lit(lit));
            }
        }
    } else if t[i] == ':' {
        let acc2 = acc.push(PartV::Lit(lit));
        assert forall|j: int| 0 <= j < acc2.len() - 1 && (#[trigger] acc2[j]) is Param implies (
        acc2[j + 1] matches PartV::Lit(l) && l.len() > 0 && l[0] == '/') by {
            if j < acc.len() - 1 {
                assert(acc2[j] == acc[j]);
                assert(acc2[j + 1] == acc[j + 1]);
            } else {
                assert(acc2[j] == acc.last());
                assert(acc2[j + 1] == PartV::Lit(lit));
            }
        }
        lemma_scan_name_wf(t, i + 1, Seq::empty(), acc2);
    } else {
        lemma_scan_static_wf(t, i + 1, lit.push(t[i]), acc);
    }
}

proof fn lemma_scan_name_wf(t: Seq<char>, i: int, name: Seq<char>, acc: Seq<PartV>)
    requires
        wf_tail(acc),
        acc.len() > 0,
        acc.last() is Lit,
        acc[0] matches PartV::Lit(l) && l.len() > 0 && l[0] == '/',
    ensures
        scan_name(t, i, name, acc) matches Ok(ps) ==> wf_parts(ps),
    decreases t.len() - i,
{
    if i >= t.len() {
        if valid_identifier(name) {
            let ps = acc.push(PartV::Param(name));
            assert forall|j: int| 0 <= j < ps.len() - 1 && (#[trigger] ps[j]) is Param implies (
            ps[j + 1] matches PartV::Lit(l) && l.len() > 0 && l[0] == '/') by {
                assert(ps[j] == acc[j]);
                if j < acc.len() - 1 {
                    assert(ps[j + 1] == acc[j + 1]);
                }
            }
        }
    } else if t[i] == '/' {
        if valid_identifier(name) {
            let acc2 = acc.push(PartV::Param(name));
            assert forall|j: int| 0 <= j < acc2.len() - 1 && (#[trigger] acc2[j]) is Param implies (
            acc2[j + 1] matches PartV::Lit(l) && l.len() > 0 && l[0] == '/') by {
                assert(acc2[j] == acc[j]);
                if j < acc.len() - 1 {
                    assert(acc2[j + 1] == acc[j + 1]);
                }
            }
            lemma_scan_static_wf(t, i + 1, seq!['/'], acc2);
        }
    } else {
        lemma_scan_name_wf(t, i + 1, name.push(t[i]), acc);
    }
}

/// Every successfully compiled template is well-formed.
pub proof fn lemma_compile_wf(t: Seq<char>)
    ensures
        compile_spec(t) matches Ok(ps) ==> wf_parts(ps),
{
    if is_ascii_chars(t) && t.len() > 0 && t[0] == '/' {
        lemma_scan_static_wf(t, 1, seq!['/'], Seq::empty());
    }
}

/// Compiles a template into its parts, or reports the first error: the
/// executable form of `compile_spec`.
pub fn compile_parts(template: &str) -> (r: Result<Vec<Part>, PathToRegexError>)
    ensures
        r matches Ok(ps) ==> (compile_spec(template@) matches Ok(psv) && psv == ps.deep_view()
            && wf_parts(ps.deep_view())),
        r matches Err(e) ==> (compile_spec(template@) matches Err(ev) && ev == e@),
{
    if !template.is_ascii() {
        return Err(PathToRegexError::NonAsciiChars);
    }
    let tv: Vec<char> = str_to_chars(template);
    if tv.len() == 0 {
        return Err(PathToRegexError::MissingLeadingForwardSlash);
    }
    if tv[0] != '/' {
        return Err(PathToRegexError::MissingLeadingForwardSlash);
    }
    let mut parts: Vec<Part> = Vec::new();
    let mut buf: Vec<char> = Vec::new();
    buf.push('/');
    let mut in_name: bool = false;
    let mut i: usize = 1;
    proof {
        assert(buf@ =~= seq!['/']);
        assert(parts.deep_view() =~= Seq::<PartV>::empty());
    }
    while i < tv.len()
        invariant
            1 <= i <= tv@.len(),
            tv@ == template@,
            is_ascii_chars(template@),
            tv@.len() > 0,
            tv@[0] == '/',
            !in_name ==> buf@.len() > 0,
            compile_spec(template@) == (if in_name {
                scan_name(tv@, i as int, buf@, parts.deep_view())
            } else {
                scan_static(tv@, i as int, buf@, parts.deep_view())
            }),
        decreases tv@.len() - i,
    {
        let c = tv[i];
        if in_name {
            if c == '/' {
                if !chars_valid_identifier(&buf) {
                    return Err(PathToRegexError::InvalidIdentifier(chars_to_string(&buf)));
                }
                let ghost old_parts = parts.deep_view();
                let ghost old_buf = buf@;
                parts.push(Part::Param(chars_to_string(&buf)));
                buf = Vec::new();
                buf.push('/');
                in_name = false;
                proof {
                    assert(parts.deep_view() =~= old_parts.push(PartV::Param(old_buf)));
                    assert(buf@ =~= seq!['/']);
                }
            } else {
                buf.push(c);
            }
        } else {
            if c == ':' {
                let ghost old_parts = parts.deep_view();
                let ghost old_buf = buf@;
                parts.push(Part::Lit(chars_to_string(&buf)));
                buf = Vec::new();
                in_name = true;
                proof {
                    assert(parts.deep_view() =~= old_parts.push(PartV::Lit(old_buf)));
                    assert(buf@ =~= Seq::<char>::empty());
                }
            } else {
                buf.push(c);
            }
        }
        i = i + 1;
    }
    if in_name {
        if !chars_valid_identifier(&buf) {
            return Err(PathToRegexError::InvalidIdentifier(chars_to_string(&buf)));
        }
        let ghost old_parts = parts.deep_view();
        let ghost old_buf = buf@;
        parts.push(Part::Param(chars_to_string(&buf)));
        proof {
            assert(parts.deep_view() =~= old_parts.push(PartV::Param(old_buf)));
            lemma_compile_wf(template@);
        }
        Ok(parts)
    } else {
        if buf[buf.len() - 1] == '/' {
            return Err(PathToRegexError::InvalidTrailingSlash);
        }
        let ghost old_parts = parts.deep_view();
        let ghost old_buf = buf@;
        parts.push(Part::Lit(chars_to_string(&buf)));
        proof {
            assert(parts.deep_view() =~= old_parts.push(PartV::Lit(old_buf)));
            lemma_compile_wf(template@);
        }
        Ok(parts)
    }
}

} // verus!
