//! Compiled routes and route shapes: a template compiled once and reused
//! for every match and render, and the definition-time pairing of a
//! template with its declared path fields.

use vstd::prelude::*;
use crate::{PathToRegexError, RouteParseErr};
use crate::matcher::{match_chars, split_query, greedy_match, captures_view, prefix_len_until};
use crate::reconcile::{reconcile_fields, FieldSetMismatch, same_name_set, missing_names};
use crate::render::{render_path_parts, render_parts};
use crate::template::{
    compile_parts, regex_string, format_string, compile_spec, wf_parts, param_names, param_count,
    lemma_param_names_snoc, Part, PartV, regex_of, format_of,
};

verus! {

/// A compiled route template: its parts, its matcher pattern, and its
/// format string. Built once when a route shape is declared, immutable
/// afterwards, and reused for every match and render.
pub struct CompiledRoute {
    parts: Vec<Part>,
    pattern: String,
    format_str: String,
}

impl CompiledRoute {
    /// The mathematical form of this route's template parts.
    pub closed spec fn parts_view(&self) -> Seq<PartV> {
        self.parts.deep_view()
    }

    /// The characters of this route's matcher pattern.
    pub closed spec fn pattern_view(&self) -> Seq<char> {
        self.pattern@
    }

    /// The characters of this route's format string.
    pub closed spec fn format_view(&self) -> Seq<char> {
        self.format_str@
    }

    /// A compiled route is well-formed: its parts have the structure the
    /// matcher relies on, and its pattern and format strings are exactly
    /// the renderings of those parts.
    pub open spec fn wf(&self) -> bool {
        &&& wf_parts(self.parts_view())
        &&& self.pattern_view() == regex_of(self.parts_view())
        &&& self.format_view() == format_of(self.parts_view())
    }

    /// Compiles a template into a route, or reports the first compilation
    /// error.
    pub fn compile(template: &str) -> (r: Result<CompiledRoute, PathToRegexError>)
        ensures
            r matches Ok(cr) ==> (cr.wf() && (compile_spec(template@) matches Ok(ps)
                && cr.parts_view() == ps)),
            r matches Err(e) ==> (compile_spec(template@) matches Err(ev) && ev == e@),
    {
        match compile_parts(template) {
            Ok(parts) => {
                let pattern = regex_string(&parts);
                let format_str = format_string(&parts);
                Ok(CompiledRoute { parts, pattern, format_str })
            },
            Err(e) => Err(e),
        }
    }

    /// The matcher pattern of this route as text.
    pub fn path_pattern(&self) -> (r: String)
        ensures
            r@ == self.pattern_view(),
    {
        self.pattern.clone()
    }

    /// The format string of this route as text.
    pub fn format_pattern(&self) -> (r: String)
        ensures
            r@ == self.format_view(),
    {
        self.format_str.clone()
    }

    /// The parameter names captured by this route's template, in template
    /// order.
    #[verifier::loop_isolation(false)]
    pub fn capture_names(&self) -> (r: Vec<String>)
        ensures
            r.deep_view() == param_names(self.parts_view()),
    {
        let ghost psv = self.parts_view();
        let mut out: Vec<String> = Vec::new();
        let mut i: usize = 0;
        proof {
            assert(psv.take(0) =~= Seq::<PartV>::empty());
            assert(out.deep_view() =~= param_names(psv.take(0)));
        }
        while i < self.parts.len()
            invariant
                i <= self.parts@.len(),
                out.deep_view() == param_names(psv.take(i as int)),
            decreases self.parts@.len() - i,
        {
            let ghost pre = psv.take(i as int);
            let ghost old_out = out.deep_view();
            match &self.parts[i] {
                Part::Param(n) => {
                    out.push(n.clone());
                },
                Part::Lit(_) => {},
            }
            proof {
                lemma_param_names_snoc(pre, psv[i as int]);
                assert(psv.take(i as int + 1) =~= pre.push(psv[i as int]));
                if psv[i as int] is Param {
                    assert(out.deep_view() =~= param_names(psv.take(i as int + 1)));
                }
            }
            i = i + 1;
        }
        proof {
            assert(psv.take(psv.len() as int) =~= psv);
        }
        out
    }

    /// Matches a path (with no query component) against this route and
    /// returns the named captures, in template order.
    pub fn match_path(&self, path: &str) -> (r: Result<Vec<(String, String)>, RouteParseErr>)
        ensures
            r matches Ok(caps) ==> greedy_match(self.parts_view(), path@) == Some(
                captures_view(caps@),
            ),
            r matches Err(e) ==> (greedy_match(self.parts_view(), path@) is None
                && e is NoMatches),
    {
        match_chars(&self.parts, path)
    }

    /// Matches a full incoming string: the part before the first `?` must
    /// match this route's template; the part after it is handed back as
    /// the query string.
    pub fn match_request(&self, app_path: &str) -> (r: Result<
        (Vec<(String, String)>, Option<String>),
        RouteParseErr,
    >)
        ensures
            r matches Ok(m) ==> (greedy_match(
                self.parts_view(),
                app_path@.take(prefix_len_until(app_path@, '?')),
            ) == Some(captures_view(m.0@)) && (prefix_len_until(app_path@, '?')
                == app_path@.len() ==> m.1 is None) && (prefix_len_until(app_path@, '?')
                < app_path@.len() ==> (m.1 matches Some(q) && q@ == app_path@.skip(
                prefix_len_until(app_path@, '?') + 1,
            )))),
            r matches Err(e) ==> (greedy_match(
                self.parts_view(),
                app_path@.take(prefix_len_until(app_path@, '?')),
            ) is None && e is NoMatches),
    {
        let (path_part, query) = split_query(app_path);
        match match_chars(&self.parts, path_part.as_str()) {
            Ok(caps) => Ok((caps, query)),
            Err(e) => Err(e),
        }
    }

    /// Renders the path portion of a route value by substituting the given
    /// parameter values, in declared order, into the template's slots.
    pub fn render_path(&self, values: &Vec<String>) -> (r: String)
        requires
            values.deep_view().len() == param_count(self.parts_view()),
        ensures
            r@ == render_parts(self.parts_view(), values.deep_view()),
    {
        render_path_parts(&self.parts, values)
    }
}

/// Why a route shape cannot be defined: its template is malformed, or its
/// declared path fields do not reconcile with the template's captures.
#[derive(Debug)]
pub enum RouteDefineError {
    Template(PathToRegexError),
    Fields(FieldSetMismatch),
}

/// A route shape: a compiled route whose captures have been reconciled,
/// at definition time, against the declared path-field names.
pub struct RouteShape {
    route: CompiledRoute,
}

impl RouteShape {
    /// The compiled route of this shape, as a spec value.
    pub closed spec fn spec_route(&self) -> CompiledRoute {
        self.route
    }

    /// The compiled route of this shape.
    pub fn route(&self) -> (r: &CompiledRoute)
        ensures
            *r == self.spec_route(),
    {
        &self.route
    }

    /// This shape's route is well-formed.
    pub open spec fn wf(&self) -> bool {
        self.spec_route().wf()
    }

    /// Defines a route shape: compiles the template and checks that its
    /// captures and the declared path fields mention exactly the same
    /// names. Both kinds of failure are definition-time errors; a shape
    /// that cannot be defined never becomes usable.
    pub fn define(template: &str, path_fields: &Vec<String>) -> (r: Result<
        RouteShape,
        RouteDefineError,
    >)
        ensures
            r matches Ok(shape) ==> (shape.wf() && (compile_spec(template@) matches Ok(ps)
                && shape.spec_route().parts_view() == ps && same_name_set(
                param_names(ps),
                path_fields.deep_view(),
            ))),
            r matches Err(RouteDefineError::Template(e)) ==> (compile_spec(template@) matches Err(
                ev,
            ) && ev == e@),
            r matches Err(RouteDefineError::Fields(m)) ==> (compile_spec(template@) matches Ok(ps)
                && !same_name_set(param_names(ps), path_fields.deep_view())
                && m.missing_from_path.deep_view() == missing_names(
                path_fields.deep_view(),
                param_names(ps),
            ) && m.missing_from_struct.deep_view() == missing_names(
                param_names(ps),
                path_fields.deep_view(),
            )),
    {
        match CompiledRoute::compile(template) {
            Ok(route) => {
                let captures = route.capture_names();
                match reconcile_fields(&captures, path_fields) {
                    Ok(_) => Ok(RouteShape { route }),
                    Err(m) => Err(RouteDefineError::Fields(m)),
                }
            },
            Err(e) => Err(RouteDefineError::Template(e)),
        }
    }
}

} // verus!
