//! Findings and their locations: classification axes, symbolic and concrete
//! locations, source comments and the inline-suppression directive grammar.

use vstd::prelude::*;
use vstd::string::*;
use crate::text::{
    matches_at, str_eq, trim_back_ws, trim_ws, first_match, find_from, find_char_before,
    trim_range, trim_back_len, first_char_match, lemma_first_char_match,
};

verus! {

/// The audience persona a finding is aimed at, from most false-positive
/// tolerant to least: auditor < pedantic < regular.
#[derive(Copy, Clone, Debug, Default, PartialEq, Eq, Structural)]
pub enum Persona {
    /// Wants every result, false positives included.
    Auditor,
    /// Wants potential code smells as well as actionable findings.
    Pedantic,
    /// Wants actionable findings only.
    #[default]
    Regular,
}

impl Persona {
    /// Position on the permissiveness axis; greater is more restrictive.
    pub open spec fn rank_spec(self) -> int {
        match self {
            Persona::Auditor => 0,
            Persona::Pedantic => 1,
            Persona::Regular => 2,
        }
    }

    pub fn rank(&self) -> (r: u8)
        ensures
            r as int == self.rank_spec(),
    {
        match self {
            Persona::Auditor => 0,
            Persona::Pedantic => 1,
            Persona::Regular => 2,
        }
    }
}

/// How confident an audit is in one of its findings.
#[derive(Copy, Clone, Debug, Default, PartialEq, Eq, Structural)]
pub enum Confidence {
    #[default]
    Unknown,
    Low,
    Medium,
    High,
}

impl Confidence {
    pub open spec fn rank_spec(self) -> int {
        match self {
            Confidence::Unknown => 0,
            Confidence::Low => 1,
            Confidence::Medium => 2,
            Confidence::High => 3,
        }
    }

    pub fn rank(&self) -> (r: u8)
        ensures
            r as int == self.rank_spec(),
    {
        match self {
            Confidence::Unknown => 0,
            Confidence::Low => 1,
            Confidence::Medium => 2,
            Confidence::High => 3,
        }
    }
}

/// How severe a finding is.
#[derive(Copy, Clone, Debug, Default, PartialEq, Eq, Structural)]
pub enum Severity {
    #[default]
    Unknown,
    Informational,
    Low,
    Medium,
    High,
}

impl Severity {
    pub open spec fn rank_spec(self) -> int {
        match self {
            Severity::Unknown => 0,
            Severity::Informational => 1,
            Severity::Low => 2,
            Severity::Medium => 3,
            Severity::High => 4,
        }
    }

    pub fn rank(&self) -> (r: u8)
        ensures
            r as int == self.rank_spec(),
    {
        match self {
            Severity::Unknown => 0,
            Severity::Informational => 1,
            Severity::Low => 2,
            Severity::Medium => 3,
            Severity::High => 4,
        }
    }

    /// The workflow-command level this severity renders as.
    pub fn as_github_command(&self) -> (r: &'static str)
        ensures
            self is High ==> r@ == "error"@,
            (self is Medium || self is Low) ==> r@ == "warning"@,
            (self is Unknown || self is Informational) ==> r@ == "notice"@,
    {
        match self {
            Severity::Unknown => "notice",
            Severity::Informational => "notice",
            Severity::Low => "warning",
            Severity::Medium => "warning",
            Severity::High => "error",
        }
    }
}

/// A finding's three classification axes together.
#[derive(Copy, Clone, Debug, PartialEq, Eq, Structural)]
pub struct Determinations {
    pub confidence: Confidence,
    pub severity: Severity,
    pub persona: Persona,
}

/// A `(row, column)` point within a source file, both zero-based and counted
/// in characters.
#[derive(Copy, Clone, Debug, PartialEq, Eq, Structural)]
pub struct Point {
    pub row: usize,
    pub column: usize,
}

/// A resolved span: a line/column point span plus an offset span. All four
/// coordinates count characters, not bytes: the resolver converts the
/// document's byte spans into character offsets, so a consumer indexing the
/// source by bytes must convert back for text outside the ASCII range.
#[derive(Copy, Clone, Debug, PartialEq, Eq, Structural)]
pub struct ConcreteLocation {
    pub start_point: Point,
    pub end_point: Point,
    pub start_offset: usize,
    pub end_offset: usize,
}

impl ConcreteLocation {
    pub fn new(start_point: Point, end_point: Point, start_offset: usize, end_offset: usize) -> (r:
        ConcreteLocation)
        ensures
            r.start_point == start_point,
            r.end_point == end_point,
            r.start_offset == start_offset,
            r.end_offset == end_offset,
    {
        ConcreteLocation { start_point, end_point, start_offset, end_offset }
    }
}

/// One full source line that carries a comment marker.
#[derive(Clone, Debug, PartialEq, Eq)]
pub struct Comment(pub String);

/// The fixed prefix of the inline suppression directive.
pub open spec fn ignore_directive_prefix() -> Seq<char> {
    "# zizmor: ignore["@
}

/// Whether some comma-separated item of `list`, starting at `from`, equals
/// `rule` after trimming surrounding whitespace.
pub open spec fn any_item_matches_from(list: Seq<char>, rule: Seq<char>, from: int) -> bool
    decreases list.len() - from,
    when 0 <= from <= list.len()
    via any_item_matches_decreases
{
    match first_char_match(list, ',', from) {
        Some(k) => trim_ws(list.subrange(from, k)) == rule || any_item_matches_from(
            list,
            rule,
            k + 1,
        ),
        None => trim_ws(list.subrange(from, list.len() as int)) == rule,
    }
}

#[via_fn]
proof fn any_item_matches_decreases(list: Seq<char>, rule: Seq<char>, from: int) {
    lemma_first_char_match(list, ',', from);
}

/// The inline-suppression semantics: a comment suppresses `rule` when it
/// carries the directive `# zizmor: ignore[...]` at the end of the line
/// (trailing whitespace allowed), with a non-empty bracketed list whose
/// comma-separated items include `rule` after whitespace trimming.
pub open spec fn ignores_spec(c: Seq<char>, rule: Seq<char>) -> bool {
    let t = trim_back_ws(c);
    match crate::text::first_match(c, ignore_directive_prefix(), 0) {
        Some(i) => {
            &&& t.len() > 0
            &&& t[t.len() - 1] == ']'
            &&& i + ignore_directive_prefix().len() < t.len() - 1
            &&& any_item_matches_from(
                c.subrange(i + ignore_directive_prefix().len() as int, t.len() - 1),
                rule,
                0,
            )
        },
        None => false,
    }
}

impl Comment {
    /// Whether this comment carries a suppression directive naming `rule_id`.
    pub fn ignores(&self, rule_id: &str) -> (r: bool)
        ensures
            r == ignores_spec(self.0@, rule_id@),
    {
        let s: &str = self.0.as_str();
        proof {
            reveal_strlit("# zizmor: ignore[");
        }
        let n = s.unicode_len();
        let found = find_from(s, "# zizmor: ignore[", 0);
        let i = match found {
            None => {
                return false;
            },
            Some(i) => i,
        };
        let e = trim_back_len(s);
        if e == 0 {
            return false;
        }
        if s.get_char(e - 1) != ']' {
            proof {
                assert(trim_back_ws(s@)[e - 1] == s@[e - 1]);
            }
            return false;
        }
        if i + 17 >= e - 1 {
            return false;
        }
        let istart = i + 17;
        let iend = e - 1;
        let ghost interior = s@.subrange(istart as int, iend as int);
        proof {
            assert(ignore_directive_prefix() =~= "# zizmor: ignore["@);
            assert(ignore_directive_prefix().len() == 17);
            assert(trim_back_ws(s@).len() == e as int);
            assert(trim_back_ws(s@)[e - 1] == s@[e - 1]);
            assert(ignores_spec(self.0@, rule_id@) == any_item_matches_from(
                interior,
                rule_id@,
                0,
            ));
        }
        let mut start = istart;
        loop
            invariant
                istart <= start <= iend < e <= n,
                n == s@.len(),
                i + 17 == istart,
                interior == s@.subrange(istart as int, iend as int),
                ignores_spec(self.0@, rule_id@) == any_item_matches_from(
                    interior,
                    rule_id@,
                    start - istart,
                ),
            decreases iend - start,
        {
            let k = match find_char_before(s, ',', start, iend) {
                Some(k) => k,
                None => iend,
            };
            proof {
                lemma_first_char_match(interior, ',', start - istart);
                assert forall|j: int| start <= j < k implies #[trigger] interior[j - istart] != ','
                by {
                    assert(interior[j - istart] == s@[j]);
                }
                if k < iend {
                    assert(interior[k - istart] == s@[k as int]);
                    match first_char_match(interior, ',', start - istart) {
                        Some(kk) => {
                            assert(interior[kk] == ',');
                            assert(s@[kk + istart] == ',');
                            assert(kk == k - istart);
                        },
                        None => {
                            assert(interior[k - istart] != ',');
                        },
                    }
                    assert(first_char_match(interior, ',', start - istart) == Some(
                        k - istart as int,
                    ));
                } else {
                    match first_char_match(interior, ',', start - istart) {
                        Some(kk) => {
                            assert(interior[kk] == ',');
                            assert(s@[kk + istart] == ',');
                        },
                        None => {},
                    }
                    assert(first_char_match(interior, ',', start - istart) is None);
                }
            }
            let (a, b) = trim_range(s, start, k);
            let seg = s.substring_char(a, b);
            proof {
                assert(interior.subrange(start - istart, k - istart) =~= s@.subrange(
                    start as int,
                    k as int,
                ));
            }
            if str_eq(seg, rule_id) {
                proof {
                    assert(trim_ws(interior.subrange(start - istart, k - istart)) == rule_id@);
                }
                return true;
            }
            if k == iend {
                proof {
                    assert(interior.subrange(start - istart, interior.len() as int) =~= s@.subrange(
                        start as int,
                        iend as int,
                    ));
                }
                return false;
            }
            start = k + 1;
        }
    }
}

/// Law: a comment of the exact directive form `# zizmor: ignore[LIST]`
/// suppresses precisely the rules that occur among LIST's comma-separated
/// items after whitespace trimming, and no others.
pub proof fn lemma_suppression_directive(list: Seq<char>, rule: Seq<char>)
    requires
        list.len() > 0,
    ensures
        ignores_spec(ignore_directive_prefix() + list + seq![']'], rule) == any_item_matches_from(
            list,
            rule,
            0,
        ),
{
    reveal_strlit("# zizmor: ignore[");
    let p = ignore_directive_prefix();
    let c = p + list + seq![']'];
    assert(c[c.len() - 1] == ']');
    assert(trim_back_ws(c) == c);
    assert(c.subrange(0, p.len() as int) =~= p);
    assert(matches_at(c, p, 0));
    assert(first_match(c, p, 0) == Some(0int));
    assert(c.subrange(p.len() as int, c.len() - 1) =~= list);
}

/// One step of a structural route: descend by mapping key or list index.
#[derive(Debug)]
pub enum RouteComponent {
    Key(String),
    Index(usize),
}

/// Spec model of a route component: a key's characters, or an index.
pub open spec fn component_model(c: RouteComponent) -> (bool, Seq<char>, int) {
    match c {
        RouteComponent::Key(k) => (true, k@, 0),
        RouteComponent::Index(i) => (false, Seq::empty(), i as int),
    }
}

impl RouteComponent {
    pub fn duplicate(&self) -> (r: RouteComponent)
        ensures
            component_model(r) == component_model(*self),
    {
        match self {
            RouteComponent::Key(k) => RouteComponent::Key(k.clone()),
            RouteComponent::Index(i) => RouteComponent::Index(*i),
        }
    }
}

/// A structural address into a document: an ordered list of key/index steps
/// from the root.
#[derive(Debug)]
pub struct Route {
    pub components: Vec<RouteComponent>,
}

/// Spec model of a route: the sequence of its steps' models.
pub open spec fn route_model(r: Route) -> Seq<(bool, Seq<char>, int)> {
    r.components@.map_values(|c: RouteComponent| component_model(c))
}

impl Route {
    pub fn new() -> (r: Route)
        ensures
            route_model(r) == Seq::<(bool, Seq<char>, int)>::empty(),
    {
        let r = Route { components: Vec::new() };
        proof {
            assert(route_model(r) =~= Seq::<(bool, Seq<char>, int)>::empty());
        }
        r
    }

    /// A new route extending this one with the given steps.
    pub fn with_keys(&self, keys: &Vec<RouteComponent>) -> (r: Route)
        ensures
            route_model(r) == route_model(*self) + route_model(Route { components: *keys }),
    {
        let mut components: Vec<RouteComponent> = Vec::new();
        let mut i: usize = 0;
        while i < self.components.len()
            invariant
                i <= self.components@.len(),
                components@.len() == i,
                forall|j: int|
                    0 <= j < i ==> component_model(#[trigger] components@[j]) == component_model(
                        self.components@[j],
                    ),
            decreases self.components@.len() - i,
        {
            components.push(self.components[i].duplicate());
            i = i + 1;
        }
        let mut i: usize = 0;
        while i < keys.len()
            invariant
                i <= keys@.len(),
                components@.len() == self.components@.len() + i,
                forall|j: int|
                    0 <= j < self.components@.len() ==> component_model(
                        #[trigger] components@[j],
                    ) == component_model(self.components@[j]),
                forall|j: int|
                    self.components@.len() <= j < self.components@.len() + i ==> component_model(
                        #[trigger] components@[j],
                    ) == component_model(keys@[j - self.components@.len()]),
            decreases keys@.len() - i,
        {
            components.push(keys[i].duplicate());
            i = i + 1;
        }
        let r = Route { components };
        proof {
            assert(route_model(r) =~= route_model(*self) + route_model(
                Route { components: *keys },
            ));
        }
        r
    }

    /// The same route without its last step, or `None` for the empty route.
    pub fn parent(&self) -> (r: Option<Route>)
        ensures
            match r {
                Some(p) => route_model(*self).len() > 0 && route_model(p) == route_model(
                    *self,
                ).drop_last(),
                None => route_model(*self).len() == 0,
            },
    {
        if self.components.len() == 0 {
            return None;
        }
        let mut components: Vec<RouteComponent> = Vec::new();
        let mut i: usize = 0;
        while i < self.components.len() - 1
            invariant
                self.components@.len() > 0,
                i <= self.components@.len() - 1,
                components@.len() == i,
                forall|j: int|
                    0 <= j < i ==> component_model(#[trigger] components@[j]) == component_model(
                        self.components@[j],
                    ),
            decreases self.components@.len() - i,
        {
            components.push(self.components[i].duplicate());
            i = i + 1;
        }
        let p = Route { components };
        proof {
            assert(route_model(p) =~= route_model(*self).drop_last());
        }
        Some(p)
    }
}

/// A symbolic location: the owning input's key, a human annotation, a route,
/// and whether the location is the finding's primary one.
#[derive(Debug)]
pub struct SymbolicLocation {
    /// The unique key of the input this location points into.
    pub key: String,
    /// A human-readable annotation for this location.
    pub annotation: String,
    /// The structural route from the document root.
    pub route: Route,
    /// Whether this location is the finding's primary location.
    pub primary: bool,
}

impl SymbolicLocation {
    /// A new symbolic location with the given steps appended to the route.
    pub fn with_keys(&self, keys: &Vec<RouteComponent>) -> (r: SymbolicLocation)
        ensures
            r.key@ == self.key@,
            r.annotation@ == self.annotation@,
            r.primary == self.primary,
            route_model(r.route) == route_model(self.route) + route_model(
                Route { components: *keys },
            ),
    {
        SymbolicLocation {
            key: self.key.clone(),
            annotation: self.annotation.clone(),
            route: self.route.with_keys(keys),
            primary: self.primary,
        }
    }

    /// Replace the annotation.
    pub fn annotated(self, annotation: String) -> (r: SymbolicLocation)
        ensures
            r.key@ == self.key@,
            r.annotation@ == annotation@,
            r.primary == self.primary,
            route_model(r.route) == route_model(self.route),
    {
        SymbolicLocation { annotation, ..self }
    }

    /// Mark this location as primary.
    pub fn primary(self) -> (r: SymbolicLocation)
        ensures
            r.key@ == self.key@,
            r.annotation@ == self.annotation@,
            r.primary == true,
            route_model(r.route) == route_model(self.route),
    {
        SymbolicLocation { primary: true, ..self }
    }
}

/// An extracted feature: a concrete span, the source text at that span, and
/// the comment-bearing lines the span touches.
#[derive(Debug)]
pub struct Feature {
    pub location: ConcreteLocation,
    pub feature: String,
    pub comments: Vec<Comment>,
}

/// A fully resolved location: the symbolic address and its concrete feature.
#[derive(Debug)]
pub struct Location {
    pub symbolic: SymbolicLocation,
    pub concrete: Feature,
}

impl Location {
    pub fn new(symbolic: SymbolicLocation, concrete: Feature) -> (r: Location)
        ensures
            r.symbolic == symbolic,
            r.concrete == concrete,
    {
        Location { symbolic, concrete }
    }
}

/// Whether any comment attached to any of the locations carries a
/// suppression directive for `ident`.
pub open spec fn any_location_ignores(locations: Seq<Location>, ident: Seq<char>) -> bool {
    exists|i: int, j: int|
        0 <= i < locations.len() && 0 <= j < locations[i].concrete.comments@.len()
            && ignores_spec(locations[i].concrete.comments@[j].0@, ident)
}

/// One discovered issue: identity, description, reference URL, its
/// determinations, its resolved locations, and whether an inline suppression
/// comment covers it.
#[derive(Debug)]
pub struct Finding {
    pub ident: String,
    pub desc: String,
    pub url: String,
    pub determinations: Determinations,
    pub locations: Vec<Location>,
    pub ignored: bool,
}

/// Building a finding can fail in exactly these ways; neither ever produces
/// a partial finding.
#[derive(Copy, Clone, Debug, PartialEq, Eq, Structural)]
pub enum BuildError {
    /// No location was marked primary: an API-misuse error by the rule.
    NoPrimaryLocation,
    /// A symbolic route did not resolve against the document: a caller
    /// error, propagated rather than swallowed.
    Unresolvable,
}

/// Whether every symbolic location's route resolves against the input.
pub open spec fn all_routes_resolve(
    input: crate::document::Input,
    locs: Seq<SymbolicLocation>,
) -> bool {
    forall|i: int|
        0 <= i < locs.len() ==> crate::document::input_route_resolves(
            input,
            route_model((#[trigger] locs[i]).route),
        )
}

/// Whether some location, symbolic or raw, is marked primary.
pub open spec fn some_primary(locs: Seq<SymbolicLocation>, raws: Seq<Location>) -> bool {
    ||| (exists|i: int| 0 <= i < locs.len() && (#[trigger] locs[i]).primary)
    ||| (exists|j: int| 0 <= j < raws.len() && (#[trigger] raws[j]).symbolic.primary)
}

/// The determinations of a sequence of findings, in order.
pub open spec fn dets_of(v: Seq<Finding>) -> Seq<Determinations> {
    v.map_values(|f: Finding| f.determinations)
}

/// A primary mark at one index establishes a primary location.
pub proof fn lemma_some_primary_here(locs: Seq<SymbolicLocation>, raws: Seq<Location>, i: int)
    requires
        0 <= i < locs.len(),
        locs[i].primary,
    ensures
        some_primary(locs, raws),
{
    assert(locs[i].primary);
}

/// When not every route resolves, some location's route fails to resolve.
pub proof fn lemma_unresolvable_witness(input: crate::document::Input, locs: Seq<SymbolicLocation>)
    requires
        !all_routes_resolve(input, locs),
    ensures
        exists|i: int|
            0 <= i < locs.len() && !crate::document::input_route_resolves(
                input,
                route_model(#[trigger] locs[i].route),
            ),
{
}

/// Accumulates one finding's classification and locations, then resolves
/// and assembles the finding atomically.
pub struct FindingBuilder {
    pub ident: String,
    pub desc: String,
    pub url: String,
    pub severity: Severity,
    pub confidence: Confidence,
    pub persona: Persona,
    pub raw_locations: Vec<Location>,
    pub locations: Vec<SymbolicLocation>,
}

impl FindingBuilder {
    pub fn new(ident: &str, desc: &str, url: &str) -> (r: FindingBuilder)
        ensures
            r.ident@ == ident@,
            r.desc@ == desc@,
            r.url@ == url@,
            r.severity == Severity::Unknown,
            r.confidence == Confidence::Unknown,
            r.persona == Persona::Regular,
            r.raw_locations@.len() == 0,
            r.locations@.len() == 0,
    {
        FindingBuilder {
            ident: ident.to_owned(),
            desc: desc.to_owned(),
            url: url.to_owned(),
            severity: Severity::Unknown,
            confidence: Confidence::Unknown,
            persona: Persona::Regular,
            raw_locations: Vec::new(),
            locations: Vec::new(),
        }
    }

    pub fn severity(self, severity: Severity) -> (r: FindingBuilder)
        ensures
            r == (FindingBuilder { severity, ..self }),
    {
        FindingBuilder { severity, ..self }
    }

    pub fn confidence(self, confidence: Confidence) -> (r: FindingBuilder)
        ensures
            r == (FindingBuilder { confidence, ..self }),
    {
        FindingBuilder { confidence, ..self }
    }

    pub fn persona(self, persona: Persona) -> (r: FindingBuilder)
        ensures
            r == (FindingBuilder { persona, ..self }),
    {
        FindingBuilder { persona, ..self }
    }

    /// Add an already-concrete location, for findings whose span was found
    /// by raw-text scanning rather than a structural route.
    pub fn add_raw_location(self, location: Location) -> (r: FindingBuilder)
        ensures
            r.raw_locations@ == self.raw_locations@.push(location),
            r.ident@ == self.ident@,
            r.desc@ == self.desc@,
            r.url@ == self.url@,
            r.severity == self.severity,
            r.confidence == self.confidence,
            r.persona == self.persona,
            r.locations@ == self.locations@,
    {
        let mut s = self;
        s.raw_locations.push(location);
        s
    }

    /// Add a symbolic location, to be resolved when the finding is built.
    pub fn add_location(self, location: SymbolicLocation) -> (r: FindingBuilder)
        ensures
            r.locations@ == self.locations@.push(location),
            r.ident@ == self.ident@,
            r.desc@ == self.desc@,
            r.url@ == self.url@,
            r.severity == self.severity,
            r.confidence == self.confidence,
            r.persona == self.persona,
            r.raw_locations@ == self.raw_locations@,
    {
        let mut s = self;
        s.locations.push(location);
        s
    }

    /// Resolve every symbolic location against the document and assemble the
    /// finding. Fails loudly — with no partial finding — when a route does
    /// not resolve or no location is primary.
    #[verifier::loop_isolation(false)]
    pub fn build(self, input: &crate::document::Input) -> (r: Result<Finding, BuildError>)
        requires
            input.wf(),
        ensures
            match r {
                Ok(f) => {
                    &&& all_routes_resolve(*input, self.locations@)
                    &&& some_primary(self.locations@, self.raw_locations@)
                    &&& f.ident@ == self.ident@
                    &&& f.desc@ == self.desc@
                    &&& f.url@ == self.url@
                    &&& f.determinations == (Determinations {
                        confidence: self.confidence,
                        severity: self.severity,
                        persona: self.persona,
                    })
                    &&& f.locations@.len() == self.locations@.len() + self.raw_locations@.len()
                    &&& (forall|i: int|
                        0 <= i < self.locations@.len() ==> {
                            let l = #[trigger] f.locations@[i];
                            &&& l.symbolic.key@ == self.locations@[i].key@
                            &&& l.symbolic.annotation@ == self.locations@[i].annotation@
                            &&& l.symbolic.primary == self.locations@[i].primary
                            &&& route_model(l.symbolic.route) == route_model(
                                self.locations@[i].route,
                            )
                            &&& crate::locate::feature_model_ok(
                                input.text(),
                                l.concrete,
                                crate::document::input_route_span(
                                    *input,
                                    route_model(self.locations@[i].route),
                                ).0,
                                crate::document::input_route_span(
                                    *input,
                                    route_model(self.locations@[i].route),
                                ).1,
                            )
                        })
                    &&& (forall|j: int|
                        0 <= j < self.raw_locations@.len() ==> #[trigger] f.locations@[
                            self.locations@.len() + j] == self.raw_locations@[j])
                    &&& (exists|i: int|
                        0 <= i < f.locations@.len() && (#[trigger] f.locations@[i]).symbolic.primary)
                    &&& f.ignored == any_location_ignores(f.locations@, self.ident@)
                },
                Err(BuildError::Unresolvable) => !all_routes_resolve(*input, self.locations@),
                Err(BuildError::NoPrimaryLocation) => !some_primary(
                    self.locations@,
                    self.raw_locations@,
                ),
            },
    {
        let FindingBuilder {
            ident,
            desc,
            url,
            severity,
            confidence,
            persona,
            raw_locations,
            locations,
        } = self;
        let mut resolved: Vec<Location> = Vec::new();
        let mut i: usize = 0;
        while i < locations.len()
            invariant
                i <= locations@.len(),
                resolved@.len() == i,
                input.wf(),
                locations@ == self.locations@,
                forall|k: int|
                    0 <= k < i ==> {
                        let l = #[trigger] resolved@[k];
                        &&& l.symbolic.key@ == locations@[k].key@
                        &&& l.symbolic.annotation@ == locations@[k].annotation@
                        &&& l.symbolic.primary == locations@[k].primary
                        &&& route_model(l.symbolic.route) == route_model(locations@[k].route)
                        &&& crate::document::input_route_resolves(
                            *input,
                            route_model(locations@[k].route),
                        )
                        &&& crate::locate::feature_model_ok(
                            input.text(),
                            l.concrete,
                            crate::document::input_route_span(
                                *input,
                                route_model(locations@[k].route),
                            ).0,
                            crate::document::input_route_span(
                                *input,
                                route_model(locations@[k].route),
                            ).1,
                        )
                    },
            decreases locations@.len() - i,
        {
            let sym = &locations[i];
            let concrete = match crate::locate::resolve_location(input, sym) {
                Ok(f) => f,
                Err(_) => {
                    return Err(BuildError::Unresolvable);
                },
            };
            let empty: Vec<RouteComponent> = Vec::new();
            let rebuilt = SymbolicLocation {
                key: sym.key.clone(),
                annotation: sym.annotation.clone(),
                route: sym.route.with_keys(&empty),
                primary: sym.primary,
            };
            proof {
                assert(route_model(Route { components: empty }) =~= Seq::<(
                    bool,
                    Seq<char>,
                    int,
                )>::empty());
                assert(route_model(rebuilt.route) =~= route_model(locations@[i as int].route));
            }
            resolved.push(Location { symbolic: rebuilt, concrete });
            i += 1;
        }
        let ghost rv = resolved@;
        let mut all: Vec<Location> = resolved;
        let mut raws = raw_locations;
        let ghost sym_count = all@.len();
        all.append(&mut raws);
        proof {
            assert(all@ == rv + self.raw_locations@);
            assert(all@.len() == self.locations@.len() + self.raw_locations@.len());
            assert forall|j: int|
                0 <= j < self.raw_locations@.len() implies #[trigger] all@[sym_count + j]
                == self.raw_locations@[j] by {}
            assert(all_routes_resolve(*input, self.locations@)) by {
                assert forall|i: int|
                    0 <= i < self.locations@.len() implies crate::document::input_route_resolves(
                    *input,
                    route_model((#[trigger] self.locations@[i]).route),
                ) by {
                    assert(rv[i].symbolic.primary == locations@[i].primary);
                }
            }
        }
        let mut has_primary = false;
        let mut j: usize = 0;
        while j < all.len()
            invariant
                j <= all@.len(),
                has_primary == (exists|k: int|
                    0 <= k < j && (#[trigger] all@[k]).symbolic.primary),
            decreases all@.len() - j,
        {
            if all[j].symbolic.primary {
                has_primary = true;
            }
            j += 1;
        }
        if !has_primary {
            proof {
                if exists|i: int| 0 <= i < locations@.len() && (#[trigger] locations@[i]).primary {
                    let i = choose|i: int|
                        0 <= i < locations@.len() && (#[trigger] locations@[i]).primary;
                    assert(rv[i].symbolic.primary);
                    assert(all@[i].symbolic.primary);
                }
                if exists|j: int|
                    0 <= j < self.raw_locations@.len() && (
                    #[trigger] self.raw_locations@[j]).symbolic.primary {
                    let j = choose|j: int|
                        0 <= j < self.raw_locations@.len() && (
                        #[trigger] self.raw_locations@[j]).symbolic.primary;
                    assert(all@[sym_count + j].symbolic.primary);
                }
                assert(!some_primary(self.locations@, self.raw_locations@));
            }
            return Err(BuildError::NoPrimaryLocation);
        }
        let mut ignored = false;
        let mut li: usize = 0;
        while li < all.len()
            invariant
                li <= all@.len(),
                ignored == (exists|x: int, y: int|
                    0 <= x < li && 0 <= y < all@[x].concrete.comments@.len() && ignores_spec(
                        (#[trigger] all@[x].concrete.comments@[y]).0@,
                        ident@,
                    )),
            decreases all@.len() - li,
        {
            let comments = &all[li].concrete.comments;
            let mut ci: usize = 0;
            while ci < comments.len()
                invariant
                    ci <= comments@.len(),
                    comments@ == all@[li as int].concrete.comments@,
                    li < all@.len(),
                    ignored == ((exists|x: int, y: int|
                        0 <= x < li && 0 <= y < all@[x].concrete.comments@.len() && ignores_spec(
                            (#[trigger] all@[x].concrete.comments@[y]).0@,
                            ident@,
                        )) || (
                    exists|y: int|
                        0 <= y < ci && ignores_spec(
                            (#[trigger] comments@[y]).0@,
                            ident@,
                        ))),
                decreases comments@.len() - ci,
            {
                if comments[ci].ignores(ident.as_str()) {
                    ignored = true;
                }
                ci += 1;
            }
            li += 1;
        }
        let f = Finding {
            ident,
            desc,
            url,
            determinations: Determinations { confidence, severity, persona },
            locations: all,
            ignored,
        };
        proof {
            assert(f.ignored == any_location_ignores(f.locations@, self.ident@));
            let k = choose|k: int| 0 <= k < all@.len() && (#[trigger] all@[k]).symbolic.primary;
            if k < sym_count {
                assert(all@[k] == rv[k]);
                assert(locations@[k].primary);
            } else {
                assert(all@[k] == self.raw_locations@[k - sym_count]);
            }
            assert(some_primary(self.locations@, self.raw_locations@));
        }
        Ok(f)
    }
}

} // verus!
