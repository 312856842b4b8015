//! Template-marker handling: recognizing `${{ ... }}` forms, extracting every
//! marker from a raw document, and splitting multi-line pattern lists.

use vstd::prelude::*;
use vstd::string::*;
use crate::text::{
    find_from, first_match, is_space_char, lemma_first_match, matches_at, starts_at,
    substr_copy, trim_front_ws, trim_back_ws, trim_ws, trim_range,
};

verus! {

/// Whether `s`, after trimming surrounding whitespace, is a template marker:
/// it starts with `${{` and ends with `}}`.
pub open spec fn curly_form(s: Seq<char>) -> bool {
    let t = trim_ws(s);
    &&& matches_at(t, "${{"@, 0)
    &&& t.len() >= 5
    &&& matches_at(t, "}}"@, t.len() - 2)
}

/// The bare expression text inside a marker: the marker's interior, trimmed.
pub open spec fn bare_of(s: Seq<char>) -> Seq<char>
    recommends
        curly_form(s),
{
    let t = trim_ws(s);
    trim_ws(t.subrange(3, t.len() - 2))
}

/// A string known to hold a whole template marker (`${{ ... }}`), possibly
/// with surrounding whitespace.
#[derive(Debug, Clone)]
pub struct ExplicitExpr {
    raw: String,
}

impl ExplicitExpr {
    /// The raw text this marker was built from.
    pub closed spec fn raw_spec(self) -> Seq<char> {
        self.raw@
    }

    /// Well-formedness: the raw text is a marker.
    pub open spec fn wf(self) -> bool {
        curly_form(self.raw_spec())
    }

    /// Recognize a template marker, returning `None` for any other text.
    pub fn from_curly(value: &str) -> (r: Option<ExplicitExpr>)
        ensures
            match r {
                Some(x) => curly_form(value@) && x.raw_spec() == value@ && x.wf(),
                None => !curly_form(value@),
            },
    {
        let n = value.unicode_len();
        let (a, b) = trim_range(value, 0, n);
        proof {
            assert(value@.subrange(0, n as int) =~= value@);
            reveal_strlit("${{");
            reveal_strlit("}}");
        }
        if b - a < 5 {
            return None;
        }
        let t = value.substring_char(a, b);
        if !starts_at(t, "${{", 0) {
            return None;
        }
        let tn = t.unicode_len();
        if !starts_at(t, "}}", tn - 2) {
            return None;
        }
        Some(ExplicitExpr { raw: value.to_owned() })
    }

    /// The marker's raw text.
    pub fn as_raw(&self) -> (r: &str)
        ensures
            r@ == self.raw_spec(),
    {
        self.raw.as_str()
    }

    /// The marker's bare expression text: the interior, trimmed.
    pub fn as_bare(&self) -> (r: String)
        requires
            self.wf(),
        ensures
            r@ == bare_of(self.raw_spec()),
    {
        let s = self.raw.as_str();
        let n = s.unicode_len();
        let (a, b) = trim_range(s, 0, n);
        proof {
            assert(s@.subrange(0, n as int) =~= s@);
            assert(trim_ws(s@).len() >= 5);
        }
        let (c, d) = trim_range(s, a + 3, b - 2);
        proof {
            assert(s@.subrange(a + 3, b - 2) =~= trim_ws(s@).subrange(3, trim_ws(s@).len() - 2));
        }
        substr_copy(s, c, d)
    }

    /// A marker built directly from text already known to be in marker form.
    pub fn from_exact(raw: String) -> (r: ExplicitExpr)
        requires
            curly_form(raw@),
        ensures
            r.raw_spec() == raw@,
            r.wf(),
    {
        ExplicitExpr { raw }
    }
}

/// The spans of every template marker in `s` at or after `from`: each span
/// runs from a `${{` to the first `}}` that follows it, inclusive.
pub open spec fn extract_spans(s: Seq<char>, from: int) -> Seq<(int, int)>
    decreases s.len() - from,
    when 0 <= from <= s.len()
    via extract_spans_decreases
{
    match first_match(s, "${{"@, from) {
        Some(i) => match first_match(s, "}}"@, i + 3) {
            Some(j) => seq![(i, j + 2)] + extract_spans(s, j + 2),
            None => Seq::empty(),
        },
        None => Seq::empty(),
    }
}

#[via_fn]
proof fn extract_spans_decreases(s: Seq<char>, from: int) {
    reveal_strlit("${{");
    reveal_strlit("}}");
    lemma_first_match(s, "${{"@, from);
    match first_match(s, "${{"@, from) {
        Some(i) => {
            lemma_first_match(s, "}}"@, i + 3);
        },
        None => {},
    }
}

/// Every template marker in `text`, left to right, each with the character
/// offsets of its span.
#[verifier::loop_isolation(false)]
pub fn extract_expressions(text: &str) -> (r: Vec<(ExplicitExpr, usize, usize)>)
    ensures
        ({
            let spans = extract_spans(text@, 0);
            &&& r@.len() == spans.len()
            &&& forall|k: int|
                0 <= k < spans.len() ==> {
                    &&& (#[trigger] r@[k]).1 as int == spans[k].0
                    &&& r@[k].2 as int == spans[k].1
                    &&& r@[k].1 <= r@[k].2 <= text@.len()
                    &&& r@[k].0.raw_spec() == text@.subrange(spans[k].0, spans[k].1)
                    &&& r@[k].0.wf()
                }
        }),
{
    let n = text.unicode_len();
    let mut out: Vec<(ExplicitExpr, usize, usize)> = Vec::new();
    let mut cur: usize = 0;
    proof {
        reveal_strlit("${{");
        reveal_strlit("}}");
    }
    loop
        invariant
            cur <= n,
            n == text@.len(),
            extract_spans(text@, 0) == out@.map_values(
                |t: (ExplicitExpr, usize, usize)| (t.1 as int, t.2 as int),
            ) + extract_spans(text@, cur as int),
            forall|k: int|
                0 <= k < out@.len() ==> {
                    &&& (#[trigger] out@[k]).1 <= out@[k].2 <= n
                    &&& out@[k].0.raw_spec() == text@.subrange(out@[k].1 as int, out@[k].2 as int)
                    &&& out@[k].0.wf()
                },
        decreases n - cur,
    {
        let i = match find_from(text, "${{", cur) {
            None => {
                proof {
                    assert(extract_spans(text@, cur as int) == Seq::<(int, int)>::empty());
                    assert(extract_spans(text@, 0) =~= out@.map_values(
                        |t: (ExplicitExpr, usize, usize)| (t.1 as int, t.2 as int),
                    ));
                }
                return out;
            },
            Some(i) => i,
        };
        let j = match find_from(text, "}}", i + 3) {
            None => {
                proof {
                    assert(extract_spans(text@, cur as int) == Seq::<(int, int)>::empty());
                    assert(extract_spans(text@, 0) =~= out@.map_values(
                        |t: (ExplicitExpr, usize, usize)| (t.1 as int, t.2 as int),
                    ));
                }
                return out;
            },
            Some(j) => j,
        };
        proof {
            lemma_first_match(text@, "${{"@, cur as int);
            lemma_first_match(text@, "}}"@, i + 3);
        }
        let raw = substr_copy(text, i, j + 2);
        proof {
            let rv = raw@;
            assert(rv[0] == text@[i as int]);
            assert(rv[rv.len() - 1] == text@[j + 1]);
            assert(text@.subrange(i as int, i + 3)[0] == text@[i as int]);
            assert(text@[i as int] == '$');
            assert(text@.subrange(j as int, j + 2)[1] == text@[j + 1]);
            assert(text@[j + 1] == '}');
            assert(rv.len() >= 5);
            assert(!is_space_char(rv[0]));
            assert(!is_space_char(rv[rv.len() - 1]));
            assert(trim_front_ws(rv) == rv);
            assert(trim_back_ws(rv) == rv);
            assert(trim_ws(rv) == rv);
            assert(rv.subrange(0, 3) =~= text@.subrange(i as int, i + 3));
            assert(matches_at(rv, "${{"@, 0));
            assert(rv.subrange(rv.len() - 2, rv.len() as int) =~= text@.subrange(
                j as int,
                j + 2,
            ));
            assert(matches_at(rv, "}}"@, rv.len() - 2));
            assert(curly_form(rv));
        }
        let x = ExplicitExpr::from_exact(raw);
        out.push((x, i, j + 2));
        proof {
            assert(extract_spans(text@, cur as int) == seq![(i as int, j + 2 as int)]
                + extract_spans(text@, j + 2));
            assert(out@.map_values(|t: (ExplicitExpr, usize, usize)| (t.1 as int, t.2 as int))
                =~= out@.drop_last().map_values(
                |t: (ExplicitExpr, usize, usize)| (t.1 as int, t.2 as int),
            ) + seq![(i as int, j + 2 as int)]);
        }
        cur = j + 2;
    }
}

/// The trimmed, non-empty lines of a newline-separated pattern list.
pub open spec fn split_patterns_spec(s: Seq<char>, from: int) -> Seq<Seq<char>>
    decreases s.len() - from,
    when 0 <= from <= s.len()
    via split_patterns_decreases
{
    match crate::text::first_char_match(s, '\n', from) {
        Some(k) => {
            let item = trim_ws(s.subrange(from, k));
            if item.len() == 0 {
                split_patterns_spec(s, k + 1)
            } else {
                seq![item] + split_patterns_spec(s, k + 1)
            }
        },
        None => {
            let item = trim_ws(s.subrange(from, s.len() as int));
            if item.len() == 0 {
                Seq::empty()
            } else {
                seq![item]
            }
        },
    }
}

#[via_fn]
proof fn split_patterns_decreases(s: Seq<char>, from: int) {
    crate::text::lemma_first_char_match(s, '\n', from);
}

/// Split a multi-line pattern list into its trimmed, non-empty lines.
#[verifier::loop_isolation(false)]
pub fn split_patterns(patterns: &str) -> (r: Vec<String>)
    ensures
        crate::expr::views_of(r@) == split_patterns_spec(patterns@, 0),
{
    let n = patterns.unicode_len();
    let mut out: Vec<String> = Vec::new();
    let mut cur: usize = 0;
    let mut done = false;
    proof {
        assert(crate::expr::views_of(out@) =~= Seq::<Seq<char>>::empty());
    }
    while !done
        invariant
            cur <= n,
            n == patterns@.len(),
            !done ==> split_patterns_spec(patterns@, 0) == crate::expr::views_of(out@)
                + split_patterns_spec(patterns@, cur as int),
            done ==> split_patterns_spec(patterns@, 0) == crate::expr::views_of(out@),
        decreases n - cur, if done { 0int } else { 1int },
    {
        let k = match crate::text::find_char_before(patterns, '\n', cur, n) {
            None => n,
            Some(k) => k,
        };
        proof {
            crate::text::lemma_first_char_match(patterns@, '\n', cur as int);
            if k < n {
                assert(crate::text::first_char_match(patterns@, '\n', cur as int) == Some(
                    k as int,
                )) by {
                    match crate::text::first_char_match(patterns@, '\n', cur as int) {
                        Some(kk) => {
                            assert(patterns@[kk] == '\n');
                        },
                        None => {
                            assert(patterns@[k as int] != '\n');
                        },
                    }
                }
            } else {
                assert(crate::text::first_char_match(patterns@, '\n', cur as int) is None)
                    by {
                    match crate::text::first_char_match(patterns@, '\n', cur as int) {
                        Some(kk) => {
                            assert(patterns@[kk] == '\n');
                        },
                        None => {},
                    }
                }
            }
        }
        let (a, b) = trim_range(patterns, cur, k);
        if b > a {
            out.push(substr_copy(patterns, a, b));
            proof {
                assert(crate::expr::views_of(out@) =~= crate::expr::views_of(out@.drop_last())
                    + seq![patterns@.subrange(a as int, b as int)]);
            }
        }
        if k < n {
            cur = k + 1;
        } else {
            cur = n;
            done = true;
        }
    }
    out
}

} // verus!
