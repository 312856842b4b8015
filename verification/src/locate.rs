//! The location resolver: maps a symbolic route over a document to a
//! concrete feature — a span, the source text at that span, and the
//! comment-bearing lines the span touches — together with the span of the
//! route's parent.

use vstd::prelude::*;
use vstd::string::*;
use crate::document::{Input, ResolveError, input_route_resolves, input_route_span};
use crate::finding::{
    Comment, ConcreteLocation, Feature, Point, SymbolicLocation, route_model,
};
use crate::text::{
    count_newlines, find_char_before, first_char_match, lemma_first_char_match, lemma_line_bounds,
    line_end, line_end_of, line_start, line_start_of, row_of, substr_copy, trim_back_range,
    trim_back_ws,
};

verus! {

/// The comment-bearing lines between the line containing `cur` and the line
/// containing `b`: each full line, trailing whitespace dropped, that holds a
/// `#` anywhere. `cur` must be a line start.
pub open spec fn comment_lines_from(s: Seq<char>, cur: int, b: int) -> Seq<Seq<char>>
    decreases s.len() - cur,
    when 0 <= cur <= s.len()
    via comment_lines_decreases
{
    let le = line_end_of(s, cur);
    let line = trim_back_ws(s.subrange(cur, le));
    let rest = if le >= b || le >= s.len() {
        Seq::empty()
    } else {
        comment_lines_from(s, le + 1, b)
    };
    if first_char_match(line, '#', 0) is Some {
        seq![line] + rest
    } else {
        rest
    }
}

#[via_fn]
proof fn comment_lines_decreases(s: Seq<char>, cur: int, b: int) {
    lemma_line_bounds(s, cur);
}

/// The comment-bearing lines touching the span `[a, b]`.
pub open spec fn comment_lines_spec(s: Seq<char>, a: int, b: int) -> Seq<Seq<char>> {
    comment_lines_from(s, line_start_of(s, a), b)
}

/// The views of a vector of comments.
pub open spec fn comment_views(v: Seq<Comment>) -> Seq<Seq<char>> {
    v.map_values(|c: Comment| c.0@)
}

/// What a correctly resolved feature looks like for the span `[a, b)` of the
/// text `s`: the concrete location carries the span and its line/column
/// points, the feature text is the exact source at the span, and the
/// comments are the comment-bearing lines the span touches.
pub open spec fn feature_model_ok(s: Seq<char>, f: Feature, a: int, b: int) -> bool {
    &&& f.location.start_offset == a
    &&& f.location.end_offset == b
    &&& f.location.start_point.row == count_newlines(s, a)
    &&& f.location.start_point.column == a - line_start_of(s, a)
    &&& f.location.end_point.row == count_newlines(s, b)
    &&& f.location.end_point.column == b - line_start_of(s, b)
    &&& f.feature@ == s.subrange(a, b)
    &&& comment_views(f.comments@) == comment_lines_spec(s, a, b)
}

/// Collect the comment-bearing lines touching `[a, b]` of `s`.
#[verifier::loop_isolation(false)]
fn comments_in_span(s: &str, a: usize, b: usize) -> (r: Vec<Comment>)
    requires
        a <= b <= s@.len(),
    ensures
        comment_views(r@) == comment_lines_spec(s@, a as int, b as int),
{
    let n = s.unicode_len();
    let mut out: Vec<Comment> = Vec::new();
    let mut cur = line_start(s, a);
    proof {
        assert(comment_views(out@) =~= Seq::<Seq<char>>::empty());
        lemma_line_bounds(s@, a as int);
    }
    loop
        invariant
            cur <= n,
            n == s@.len(),
            comment_lines_spec(s@, a as int, b as int) == comment_views(out@)
                + comment_lines_from(s@, cur as int, b as int),
        decreases n - cur,
    {
        let le = line_end(s, cur);
        let te = trim_back_range(s, cur, le);
        let found = find_char_before(s, '#', cur, te);
        let has_comment = match found {
            Some(_) => true,
            None => false,
        };
        proof {
            let line = trim_back_ws(s@.subrange(cur as int, le as int));
            assert(line == s@.subrange(cur as int, te as int));
            lemma_first_char_match(line, '#', 0);
            match found {
                Some(i) => {
                    assert(line[i - cur] == '#');
                    match first_char_match(line, '#', 0) {
                        Some(_) => {},
                        None => {
                            assert(line[i - cur] != '#');
                        },
                    }
                },
                None => {
                    match first_char_match(line, '#', 0) {
                        Some(k) => {
                            assert(line[k] == '#');
                            assert(s@[cur + k] == '#');
                        },
                        None => {},
                    }
                },
            }
            assert(has_comment == (first_char_match(line, '#', 0) is Some));
        }
        if has_comment {
            out.push(Comment(substr_copy(s, cur, te)));
            proof {
                assert(comment_views(out@) =~= comment_views(out@.drop_last()) + seq![
                    s@.subrange(cur as int, te as int),
                ]);
            }
        }
        if le >= b || le >= n {
            proof {
                assert(comment_lines_spec(s@, a as int, b as int) =~= comment_views(out@));
            }
            return out;
        }
        cur = le + 1;
    }
}

/// Build the concrete feature for the span `[a, b)` of an input's text.
pub fn feature_from_span(input: &Input, a: usize, b: usize) -> (f: Feature)
    requires
        input.wf(),
        a <= b <= input.text().len(),
    ensures
        feature_model_ok(input.text(), f, a as int, b as int),
{
    let s = input.source();
    let start_row = row_of(s, a);
    let start_col = a - line_start(s, a);
    let end_row = row_of(s, b);
    let end_col = b - line_start(s, b);
    let location = ConcreteLocation {
        start_point: Point { row: start_row, column: start_col },
        end_point: Point { row: end_row, column: end_col },
        start_offset: a,
        end_offset: b,
    };
    let feature = substr_copy(s, a, b);
    let comments = comments_in_span(s, a, b);
    Feature { location, feature, comments }
}

/// Resolve one symbolic location to its concrete feature.
pub fn resolve_location(input: &Input, location: &SymbolicLocation) -> (r: Result<
    Feature,
    ResolveError,
>)
    requires
        input.wf(),
    ensures
        match r {
            Ok(f) => input_route_resolves(*input, route_model(location.route))
                && feature_model_ok(
                input.text(),
                f,
                input_route_span(*input, route_model(location.route)).0,
                input_route_span(*input, route_model(location.route)).1,
            ),
            Err(_) => !input_route_resolves(*input, route_model(location.route)),
        },
        r is Ok && route_model(location.route).len() > 0 ==> input_route_resolves(
            *input,
            route_model(location.route).drop_last(),
        ),
{
    let (a, b) = match input.resolve_span(&location.route) {
        Ok(span) => span,
        Err(e) => {
            return Err(e);
        },
    };
    Ok(feature_from_span(input, a, b))
}

/// Law: location resolution is deterministic. Two features resolved for the
/// same span of the same text agree on every observable part: span, points,
/// extracted text and comments.
pub proof fn lemma_resolution_deterministic(s: Seq<char>, f1: Feature, f2: Feature, a: int, b: int)
    requires
        feature_model_ok(s, f1, a, b),
        feature_model_ok(s, f2, a, b),
    ensures
        f1.location == f2.location,
        f1.feature@ == f2.feature@,
        comment_views(f1.comments@) == comment_views(f2.comments@),
{
}

/// The location resolver.
pub struct Locator;

impl Locator {
    pub fn new() -> (r: Locator) {
        Locator {  }
    }

    /// Resolve a symbolic location to its concrete feature and the feature
    /// of its parent route (the route minus its last step; the whole
    /// document when there is no parent).
    pub fn concretize(&self, input: &Input, location: &SymbolicLocation) -> (r: Result<
        (Feature, Feature),
        ResolveError,
    >)
        requires
            input.wf(),
        ensures
            match r {
                Ok(pair) => {
                    let steps = route_model(location.route);
                    let parent_steps = if steps.len() == 0 {
                        steps
                    } else {
                        steps.drop_last()
                    };
                    &&& input_route_resolves(*input, steps)
                    &&& feature_model_ok(
                        input.text(),
                        pair.0,
                        input_route_span(*input, steps).0,
                        input_route_span(*input, steps).1,
                    )
                    &&& input_route_resolves(*input, parent_steps)
                    &&& feature_model_ok(
                        input.text(),
                        pair.1,
                        input_route_span(*input, parent_steps).0,
                        input_route_span(*input, parent_steps).1,
                    )
                },
                Err(_) => !input_route_resolves(*input, route_model(location.route)),
            },
    {
        let feature = match resolve_location(input, location) {
            Ok(f) => f,
            Err(e) => {
                return Err(e);
            },
        };
        let parent = match location.route.parent() {
            None => {
                let n = input.source().unicode_len();
                feature_from_span(input, 0, n)
            },
            Some(proute) => {
                let (a, b) = match input.resolve_span(&proute) {
                    Ok(span) => span,
                    Err(e) => {
                        // Unreachable: a resolving route's parent resolves.
                        proof {
                            assert(false);
                        }
                        return Err(e);
                    },
                };
                feature_from_span(input, a, b)
            },
        };
        Ok((feature, parent))
    }
}

} // verus!
