//! The data model of workflow documents: environment maps, steps, jobs,
//! permission blocks, strategy matrices, and `uses:` action references.

use vstd::prelude::*;
use vstd::string::*;
use crate::finding::{Route, RouteComponent, SymbolicLocation, route_model};
use crate::text::{
    find_char_before, first_char_match, last_char_match, lemma_first_char_match,
    lemma_last_char_match, matches_at, rfind_char, starts_at, str_eq, substr_copy,
};

pub mod coordinate;

verus! {

/// A scalar value of an `env:` or `with:` map, as it appears in the document.
#[derive(Debug, Clone)]
pub enum EnvValue {
    Text(String),
    Boolean(bool),
    Number(String),
}

impl EnvValue {
    /// The value as document text.
    pub open spec fn text_spec(self) -> Seq<char> {
        match self {
            EnvValue::Text(s) => s@,
            EnvValue::Boolean(b) => if b {
                "true"@
            } else {
                "false"@
            },
            EnvValue::Number(n) => n@,
        }
    }

    pub fn to_text(&self) -> (r: String)
        ensures
            r@ == self.text_spec(),
    {
        match self {
            EnvValue::Text(s) => s.clone(),
            EnvValue::Boolean(b) => if *b {
                "true".to_owned()
            } else {
                "false".to_owned()
            },
            EnvValue::Number(n) => n.clone(),
        }
    }
}

/// First value bound to `key`, scanning the entries in order.
pub open spec fn env_lookup(entries: Seq<(String, EnvValue)>, key: Seq<char>) -> Option<EnvValue>
    decreases entries.len(),
{
    if entries.len() == 0 {
        None
    } else if entries[0].0@ == key {
        Some(entries[0].1)
    } else {
        env_lookup(entries.drop_first(), key)
    }
}

/// An ordered key/value map, as an `env:` or `with:` block reads in the
/// document.
#[derive(Debug, Clone)]
pub struct Env {
    pub entries: Vec<(String, EnvValue)>,
}

impl Env {
    pub fn new() -> (r: Env)
        ensures
            r.entries@.len() == 0,
    {
        Env { entries: Vec::new() }
    }

    /// The first value bound to `key`, if any.
    #[verifier::loop_isolation(false)]
    pub fn get(&self, key: &str) -> (r: Option<&EnvValue>)
        ensures
            match r {
                Some(v) => env_lookup(self.entries@, key@) == Some(*v),
                None => env_lookup(self.entries@, key@) is None,
            },
    {
        let mut i: usize = 0;
        proof {
            assert(self.entries@.skip(0) =~= self.entries@);
        }
        while i < self.entries.len()
            invariant
                i <= self.entries@.len(),
                env_lookup(self.entries@, key@) == env_lookup(
                    self.entries@.skip(i as int),
                    key@,
                ),
            decreases self.entries@.len() - i,
        {
            proof {
                assert(self.entries@.skip(i as int)[0] == self.entries@[i as int]);
                assert(self.entries@.skip(i as int).drop_first() =~= self.entries@.skip(i + 1));
            }
            if str_eq(self.entries[i].0.as_str(), key) {
                return Some(&self.entries[i].1);
            }
            i += 1;
        }
        None
    }

    /// Whether `key` is bound at all.
    pub fn contains_key(&self, key: &str) -> (r: bool)
        ensures
            r == (env_lookup(self.entries@, key@) is Some),
    {
        match self.get(key) {
            Some(_) => true,
            None => false,
        }
    }
}

/// A document position that is either a literal value or a whole-value
/// template expression; the expression is kept as its bare text.
#[derive(Debug, Clone)]
pub enum LoE<T> {
    Literal(T),
    Expr(String),
}

/// A blanket permission level.
#[derive(Copy, Clone, Debug, PartialEq, Eq, Structural)]
pub enum BasePermission {
    /// No explicit permissions block.
    Default,
    ReadAll,
    WriteAll,
}

/// A workflow- or job-level permissions block.
#[derive(Debug, Clone)]
pub enum Permissions {
    Base(BasePermission),
    Explicit(Env),
}

/// One value of a strategy matrix.
#[derive(Debug)]
pub enum MatrixValue {
    Text(String),
    Boolean(bool),
    Number(String),
    List(Vec<MatrixValue>),
    Mapping(Vec<(String, MatrixValue)>),
}

/// Structural size of a matrix value, the termination measure of the walk.
pub open spec fn mv_size(v: MatrixValue) -> nat
    decreases v, 0int,
{
    match v {
        MatrixValue::List(vs) => 1 + mv_list_size(vs@),
        MatrixValue::Mapping(kvs) => 1 + mv_map_size(kvs@),
        _ => 1,
    }
}

pub open spec fn mv_list_size(vs: Seq<MatrixValue>) -> nat
    decreases vs, 1int,
{
    if vs.len() == 0 {
        0
    } else {
        mv_size(vs[0]) + mv_list_size(vs.drop_first())
    }
}

pub open spec fn mv_map_size(kvs: Seq<(String, MatrixValue)>) -> nat
    decreases kvs, 1int,
{
    if kvs.len() == 0 {
        0
    } else {
        mv_size(kvs[0].1) + mv_map_size(kvs.drop_first())
    }
}

proof fn lemma_mv_list_size_elem(vs: Seq<MatrixValue>, i: int)
    requires
        0 <= i < vs.len(),
    ensures
        mv_size(vs[i]) <= mv_list_size(vs),
    decreases i,
{
    if i == 0 {
    } else {
        lemma_mv_list_size_elem(vs.drop_first(), i - 1);
        assert(vs.drop_first()[i - 1] == vs[i]);
    }
}

proof fn lemma_mv_map_size_elem(kvs: Seq<(String, MatrixValue)>, i: int)
    requires
        0 <= i < kvs.len(),
    ensures
        mv_size(kvs[i].1) <= mv_map_size(kvs),
    decreases i,
{
    if i == 0 {
    } else {
        lemma_mv_map_size_elem(kvs.drop_first(), i - 1);
        assert(kvs.drop_first()[i - 1] == kvs[i]);
    }
}

/// A matrix value is static when no text anywhere inside it holds a template
/// marker.
pub open spec fn mv_static(v: MatrixValue) -> bool
    decreases v, 0int,
{
    match v {
        MatrixValue::Text(s) => crate::utils::extract_spans(s@, 0).len() == 0,
        MatrixValue::Boolean(_) => true,
        MatrixValue::Number(_) => true,
        MatrixValue::List(vs) => mv_list_static(vs@),
        MatrixValue::Mapping(kvs) => mv_map_static(kvs@),
    }
}

pub open spec fn mv_list_static(vs: Seq<MatrixValue>) -> bool
    decreases vs, 1int,
{
    if vs.len() == 0 {
        true
    } else {
        mv_static(vs[0]) && mv_list_static(vs.drop_first())
    }
}

pub open spec fn mv_map_static(kvs: Seq<(String, MatrixValue)>) -> bool
    decreases kvs, 1int,
{
    if kvs.len() == 0 {
        true
    } else {
        mv_static(kvs[0].1) && mv_map_static(kvs.drop_first())
    }
}

#[verifier::loop_isolation(false)]
fn mv_is_static(v: &MatrixValue) -> (r: bool)
    ensures
        r == mv_static(*v),
    decreases mv_size(*v),
{
    match v {
        MatrixValue::Text(s) => {
            let spans = crate::utils::extract_expressions(s.as_str());
            spans.len() == 0
        },
        MatrixValue::Boolean(_) => true,
        MatrixValue::Number(_) => true,
        MatrixValue::List(vs) => {
            let mut i: usize = 0;
            while i < vs.len()
                invariant
                    i <= vs@.len(),
                    mv_list_static(vs@.take(i as int)),
                decreases vs@.len() - i,
            {
                proof {
                    lemma_mv_list_size_elem(vs@, i as int);
                }
                if !mv_is_static(&vs[i]) {
                    proof {
                        lemma_mv_list_static_elem(vs@, i as int);
                    }
                    return false;
                }
                proof {
                    lemma_mv_list_static_snoc(vs@, i as int);
                }
                i += 1;
            }
            proof {
                assert(vs@.take(vs@.len() as int) =~= vs@);
            }
            true
        },
        MatrixValue::Mapping(kvs) => {
            let mut i: usize = 0;
            while i < kvs.len()
                invariant
                    i <= kvs@.len(),
                    mv_map_static(kvs@.take(i as int)),
                decreases kvs@.len() - i,
            {
                proof {
                    lemma_mv_map_size_elem(kvs@, i as int);
                }
                if !mv_is_static(&kvs[i].1) {
                    proof {
                        lemma_mv_map_static_elem(kvs@, i as int);
                    }
                    return false;
                }
                proof {
                    lemma_mv_map_static_snoc(kvs@, i as int);
                }
                i += 1;
            }
            proof {
                assert(kvs@.take(kvs@.len() as int) =~= kvs@);
            }
            true
        },
    }
}

proof fn lemma_mv_list_static_elem(vs: Seq<MatrixValue>, i: int)
    requires
        0 <= i < vs.len(),
        !mv_static(vs[i]),
    ensures
        !mv_list_static(vs),
    decreases i,
{
    if i == 0 {
    } else {
        lemma_mv_list_static_elem(vs.drop_first(), i - 1);
        assert(vs.drop_first()[i - 1] == vs[i]);
    }
}

proof fn lemma_mv_list_static_snoc(vs: Seq<MatrixValue>, i: int)
    requires
        0 <= i < vs.len(),
        mv_list_static(vs.take(i)),
        mv_static(vs[i]),
    ensures
        mv_list_static(vs.take(i + 1)),
    decreases i,
{
    if i == 0 {
        assert(vs.take(1).drop_first() =~= Seq::<MatrixValue>::empty());
        assert(vs.take(1)[0] == vs[0]);
        assert(mv_list_static(Seq::<MatrixValue>::empty()));
        assert(mv_list_static(vs.take(1)));
    } else {
        assert(vs.take(i).drop_first() =~= vs.drop_first().take(i - 1));
        assert(vs.take(i)[0] == vs[0]);
        assert(vs.drop_first()[i - 1] == vs[i]);
        lemma_mv_list_static_snoc(vs.drop_first(), i - 1);
        assert(vs.take(i + 1).drop_first() =~= vs.drop_first().take(i));
        assert(vs.take(i + 1)[0] == vs[0]);
        assert(mv_static(vs.take(i + 1)[0]));
        assert(mv_list_static(vs.take(i + 1).drop_first()));
        assert(mv_list_static(vs.take(i + 1)));
    }
}

proof fn lemma_mv_map_static_elem(kvs: Seq<(String, MatrixValue)>, i: int)
    requires
        0 <= i < kvs.len(),
        !mv_static(kvs[i].1),
    ensures
        !mv_map_static(kvs),
    decreases i,
{
    if i == 0 {
    } else {
        lemma_mv_map_static_elem(kvs.drop_first(), i - 1);
        assert(kvs.drop_first()[i - 1] == kvs[i]);
    }
}

proof fn lemma_mv_map_static_snoc(kvs: Seq<(String, MatrixValue)>, i: int)
    requires
        0 <= i < kvs.len(),
        mv_map_static(kvs.take(i)),
        mv_static(kvs[i].1),
    ensures
        mv_map_static(kvs.take(i + 1)),
    decreases i,
{
    if i == 0 {
        assert(kvs.take(1).drop_first() =~= Seq::<(String, MatrixValue)>::empty());
        assert(kvs.take(1)[0] == kvs[0]);
        assert(mv_map_static(Seq::<(String, MatrixValue)>::empty()));
        assert(mv_map_static(kvs.take(1)));
    } else {
        assert(kvs.take(i).drop_first() =~= kvs.drop_first().take(i - 1));
        assert(kvs.take(i)[0] == kvs[0]);
        assert(kvs.drop_first()[i - 1] == kvs[i]);
        lemma_mv_map_static_snoc(kvs.drop_first(), i - 1);
        assert(kvs.take(i + 1).drop_first() =~= kvs.drop_first().take(i));
        assert(kvs.take(i + 1)[0] == kvs[0]);
        assert(mv_static(kvs.take(i + 1)[0].1));
        assert(mv_map_static(kvs.take(i + 1).drop_first()));
        assert(mv_map_static(kvs.take(i + 1)));
    }
}

/// A strategy matrix: the named dimensions, as given in the document.
#[derive(Debug)]
pub struct Matrix {
    pub dimensions: Vec<(String, MatrixValue)>,
}

impl Matrix {
    pub fn new(dimensions: Vec<(String, MatrixValue)>) -> (r: Matrix)
        ensures
            r.dimensions@ == dimensions@,
    {
        Matrix { dimensions }
    }

    /// Whether the matrix is fully static: no dimension value anywhere holds
    /// a template marker.
    pub fn is_static(&self) -> (r: bool)
        ensures
            r == mv_map_static(self.dimensions@),
    {
        mv_is_static_map(&self.dimensions)
    }
}

#[verifier::loop_isolation(false)]
fn mv_is_static_map(kvs: &Vec<(String, MatrixValue)>) -> (r: bool)
    ensures
        r == mv_map_static(kvs@),
{
    let mut i: usize = 0;
    while i < kvs.len()
        invariant
            i <= kvs@.len(),
            mv_map_static(kvs@.take(i as int)),
        decreases kvs@.len() - i,
    {
        if !mv_is_static(&kvs[i].1) {
            proof {
                lemma_mv_map_static_elem(kvs@, i as int);
            }
            return false;
        }
        proof {
            lemma_mv_map_static_snoc(kvs@, i as int);
        }
        i += 1;
    }
    proof {
        assert(kvs@.take(kvs@.len() as int) =~= kvs@);
    }
    true
}

/// A job's strategy block.
#[derive(Debug)]
pub struct Strategy {
    pub matrix: Option<LoE<Matrix>>,
}

/// The body of one step: an action reference with its inputs, or a shell
/// command with its environment.
#[derive(Debug, Clone)]
pub enum StepBody {
    Uses { uses: String, with: Env },
    Run { run: String, shell: Option<String>, working_directory: Option<String>, env: LoE<Env> },
}

/// One step of a normal job.
#[derive(Debug, Clone)]
pub struct Step {
    /// The step's position within its job, zero-based.
    pub index: usize,
    pub id: Option<String>,
    pub name: Option<String>,
    pub if_expr: Option<String>,
    pub body: StepBody,
}

impl Step {
    pub fn new(
        index: usize,
        id: Option<String>,
        name: Option<String>,
        if_expr: Option<String>,
        body: StepBody,
    ) -> (r: Step)
        ensures
            r.index == index,
            r.id == id,
            r.name == name,
            r.if_expr == if_expr,
            r.body == body,
    {
        Step { index, id, name, if_expr, body }
    }

    /// This step's symbolic location under its job's location.
    pub fn location(&self, job_location: &SymbolicLocation) -> (r: SymbolicLocation)
        ensures
            r.key@ == job_location.key@,
            route_model(r.route) == route_model(job_location.route) + seq![
                (true, "steps"@, 0int),
                (false, Seq::<char>::empty(), self.index as int),
            ],
    {
        let mut keys: Vec<RouteComponent> = Vec::new();
        keys.push(RouteComponent::Key("steps".to_owned()));
        keys.push(RouteComponent::Index(self.index));
        let r = job_location.with_keys(&keys);
        proof {
            assert(route_model(Route { components: keys }) =~= seq![
                (true, "steps"@, 0int),
                (false, Seq::<char>::empty(), self.index as int),
            ]);
        }
        r
    }
}

/// A normal job: steps run on a runner.
#[derive(Debug)]
pub struct NormalJob {
    pub id: String,
    pub name: Option<String>,
    pub if_expr: Option<String>,
    pub env: LoE<Env>,
    pub permissions: Permissions,
    pub strategy: Option<Strategy>,
    pub environment: Option<String>,
    pub steps: Vec<Step>,
}

/// A job that calls a reusable workflow.
#[derive(Debug)]
pub struct ReusableWorkflowCallJob {
    pub id: String,
    pub uses: String,
    pub if_expr: Option<String>,
    pub inherits_secrets: bool,
}

/// One job of a workflow.
#[derive(Debug)]
pub enum Job {
    Normal(NormalJob),
    Reusable(ReusableWorkflowCallJob),
}

impl Job {
    /// The job's id, whichever kind it is.
    pub fn id(&self) -> (r: &str)
        ensures
            r@ == self.id_spec(),
    {
        match self {
            Job::Normal(j) => j.id.as_str(),
            Job::Reusable(j) => j.id.as_str(),
        }
    }

    pub open spec fn id_spec(self) -> Seq<char> {
        match self {
            Job::Normal(j) => j.id@,
            Job::Reusable(j) => j.id@,
        }
    }

    /// This job's symbolic location under the workflow's location.
    pub fn location(&self, workflow_location: &SymbolicLocation) -> (r: SymbolicLocation)
        ensures
            r.key@ == workflow_location.key@,
            route_model(r.route) == route_model(workflow_location.route) + seq![
                (true, "jobs"@, 0int),
                (true, self.id_spec(), 0int),
            ],
    {
        let mut keys: Vec<RouteComponent> = Vec::new();
        keys.push(RouteComponent::Key("jobs".to_owned()));
        keys.push(RouteComponent::Key(self.id().to_owned()));
        let r = workflow_location.with_keys(&keys);
        proof {
            assert(route_model(Route { components: keys }) =~= seq![
                (true, "jobs"@, 0int),
                (true, self.id_spec(), 0int),
            ]);
        }
        r
    }

    /// This job's location extended by one more key.
    pub fn key_location(&self, workflow_location: &SymbolicLocation, key: &str) -> (r:
        SymbolicLocation)
        ensures
            r.key@ == workflow_location.key@,
            route_model(r.route) == route_model(workflow_location.route) + seq![
                (true, "jobs"@, 0int),
                (true, self.id_spec(), 0int),
                (true, key@, 0int),
            ],
    {
        let base = self.location(workflow_location);
        let mut keys: Vec<RouteComponent> = Vec::new();
        keys.push(RouteComponent::Key(key.to_owned()));
        let r = base.with_keys(&keys);
        proof {
            assert(route_model(Route { components: keys }) =~= seq![(true, key@, 0int)]);
            assert(route_model(r.route) =~= route_model(workflow_location.route) + seq![
                (true, "jobs"@, 0int),
                (true, self.id_spec(), 0int),
                (true, key@, 0int),
            ]);
        }
        r
    }

    /// The steps of a normal job; a reusable-call job has none.
    pub fn steps(&self) -> (r: Option<&Vec<Step>>)
        ensures
            match self {
                Job::Normal(j) => r matches Some(s) && s@ == j.steps@,
                Job::Reusable(_) => r is None,
            },
    {
        match self {
            Job::Normal(j) => Some(&j.steps),
            Job::Reusable(_) => None,
        }
    }
}

/// Where the path part of a `uses:` value ends: at the last `@`, or at the
/// end when there is no ref.
pub open spec fn uses_path_end(s: Seq<char>) -> int {
    match last_char_match(s, '@') {
        Some(i) => i,
        None => s.len() as int,
    }
}

/// The git ref of a `uses:` value: everything after the last `@`, if any.
pub open spec fn uses_ref_spec(s: Seq<char>) -> Option<Seq<char>> {
    match last_char_match(s, '@') {
        Some(i) => Some(s.subrange(i + 1, s.len() as int)),
        None => None,
    }
}

/// How a `uses:` value splits into owner, repo, subpath and git ref:
/// the ref is everything after the last `@`; the path before it splits at
/// its first two slashes. Local (`./`) references do not split.
pub open spec fn uses_split_spec(s: Seq<char>) -> Option<
    (Seq<char>, Seq<char>, Option<Seq<char>>, Option<Seq<char>>),
> {
    if matches_at(s, "./"@, 0) {
        None
    } else {
        let pe = uses_path_end(s);
        match first_char_match(s, '/', 0) {
            None => None,
            Some(i) => if i >= pe {
                None
            } else {
                let owner = s.subrange(0, i);
                match first_char_match(s, '/', i + 1) {
                    None => Some((owner, s.subrange(i + 1, pe), None, uses_ref_spec(s))),
                    Some(j) => if j >= pe {
                        Some((owner, s.subrange(i + 1, pe), None, uses_ref_spec(s)))
                    } else {
                        Some(
                            (
                                owner,
                                s.subrange(i + 1, j),
                                Some(s.subrange(j + 1, pe)),
                                uses_ref_spec(s),
                            ),
                        )
                    },
                }
            },
        }
    }
}

/// Whether `g` is a full commit hash: exactly forty hexadecimal digits.
pub open spec fn is_commit_ref(g: Seq<char>) -> bool {
    g.len() == 40 && (forall|k: int| 0 <= k < g.len() ==> is_hex_digit_char(#[trigger] g[k]))
}

pub open spec fn is_hex_digit_char(c: char) -> bool {
    (48 <= c as u32 && c as u32 <= 57) || (97 <= c as u32 && c as u32 <= 102) || (65 <= c as u32
        && c as u32 <= 70)
}

fn is_hex_digit(c: char) -> (r: bool)
    ensures
        r == is_hex_digit_char(c),
{
    let x = c as u32;
    (48 <= x && x <= 57) || (97 <= x && x <= 102) || (65 <= x && x <= 70)
}

/// The components of a repository action reference: the value of a `uses:`
/// clause naming `owner/repo[/subpath][@ref]`. Local (`./`) and `docker://`
/// references are not represented here.
#[derive(Debug, Clone, PartialEq, Eq)]
pub struct Uses {
    pub owner: String,
    pub repo: String,
    pub subpath: Option<String>,
    pub git_ref: Option<String>,
}

impl Uses {
    /// Assemble a `Uses` from parts, without validation.
    pub fn new(owner: &str, repo: &str, subpath: Option<&str>, git_ref: Option<&str>) -> (r: Uses)
        ensures
            r.owner@ == owner@,
            r.repo@ == repo@,
            r.subpath.deep_view() == subpath.deep_view(),
            r.git_ref.deep_view() == git_ref.deep_view(),
    {
        Uses {
            owner: owner.to_owned(),
            repo: repo.to_owned(),
            subpath: match subpath {
                Some(s) => Some(s.to_owned()),
                None => None,
            },
            git_ref: match git_ref {
                Some(s) => Some(s.to_owned()),
                None => None,
            },
        }
    }

    /// Split any non-local `uses:` value into its components.
    pub fn from_common(uses: &str) -> (r: Option<Uses>)
        ensures
            match r {
                Some(u) => uses_split_spec(uses@) == Some(
                    (u.owner@, u.repo@, u.subpath.deep_view(), u.git_ref.deep_view()),
                ),
                None => uses_split_spec(uses@) is None,
            },
    {
        proof {
            reveal_strlit("./");
        }
        let n = uses.unicode_len();
        if starts_at(uses, "./", 0) {
            return None;
        }
        proof {
            lemma_last_char_match(uses@, '@');
        }
        let (pe, has_ref) = match rfind_char(uses, '@') {
            Some(i) => (i, true),
            None => (n, false),
        };
        let i = match find_char_before(uses, '/', 0, pe) {
            None => {
                proof {
                    lemma_first_char_match(uses@, '/', 0);
                    match first_char_match(uses@, '/', 0) {
                        Some(k) => {
                            if k < pe as int {
                                assert(uses@[k] != '/');
                            }
                        },
                        None => {},
                    }
                }
                return None;
            },
            Some(i) => i,
        };
        proof {
            lemma_first_char_match(uses@, '/', 0);
            match first_char_match(uses@, '/', 0) {
                Some(k) => {
                    if k < i as int {
                        assert(uses@[k] != '/');
                    }
                    if k > i as int {
                        assert(uses@[i as int] != '/');
                    }
                },
                None => {
                    assert(uses@[i as int] != '/');
                },
            }
        }
        let owner = substr_copy(uses, 0, i);
        let git_ref = if has_ref {
            Some(substr_copy(uses, pe + 1, n))
        } else {
            None
        };
        let j = match find_char_before(uses, '/', i + 1, pe) {
            None => {
                proof {
                    lemma_first_char_match(uses@, '/', i + 1);
                    match first_char_match(uses@, '/', i + 1) {
                        Some(k) => {
                            if k < pe as int {
                                assert(uses@[k] != '/');
                            }
                        },
                        None => {},
                    }
                }
                return Some(
                    Uses { owner, repo: substr_copy(uses, i + 1, pe), subpath: None, git_ref },
                );
            },
            Some(j) => j,
        };
        proof {
            lemma_first_char_match(uses@, '/', i + 1);
            match first_char_match(uses@, '/', i + 1) {
                Some(k) => {
                    if k < j as int {
                        assert(uses@[k] != '/');
                    }
                    if k > j as int {
                        assert(uses@[j as int] != '/');
                    }
                },
                None => {
                    assert(uses@[j as int] != '/');
                },
            }
        }
        Some(
            Uses {
                owner,
                repo: substr_copy(uses, i + 1, j),
                subpath: Some(substr_copy(uses, j + 1, pe)),
                git_ref,
            },
        )
    }

    /// Split a step's `uses:` value; `docker://` images are not repository
    /// references.
    pub fn from_step(uses: &str) -> (r: Option<Uses>)
        ensures
            matches_at(uses@, "docker://"@, 0) ==> r is None,
            !matches_at(uses@, "docker://"@, 0) ==> match r {
                Some(u) => uses_split_spec(uses@) == Some(
                    (u.owner@, u.repo@, u.subpath.deep_view(), u.git_ref.deep_view()),
                ),
                None => uses_split_spec(uses@) is None,
            },
    {
        proof {
            reveal_strlit("docker://");
        }
        if starts_at(uses, "docker://", 0) {
            return None;
        }
        Uses::from_common(uses)
    }

    /// Split a reusable-workflow `uses:` value, which must carry a git ref.
    pub fn from_reusable(uses: &str) -> (r: Option<Uses>)
        ensures
            match r {
                Some(u) => uses_split_spec(uses@) == Some(
                    (u.owner@, u.repo@, u.subpath.deep_view(), u.git_ref.deep_view()),
                ) && u.git_ref is Some,
                None => uses_split_spec(uses@) is None || (match uses_split_spec(uses@) {
                    Some(t) => t.3 is None,
                    None => true,
                }),
            },
    {
        match Uses::from_common(uses) {
            Some(u) => match u.git_ref {
                Some(_) => Some(u),
                None => None,
            },
            None => None,
        }
    }

    /// Whether the git ref is a pinned forty-digit commit hash.
    #[verifier::loop_isolation(false)]
    pub fn ref_is_commit(&self) -> (r: bool)
        ensures
            r == match self.git_ref {
                Some(g) => is_commit_ref(g@),
                None => false,
            },
    {
        let g = match &self.git_ref {
            Some(g) => g,
            None => {
                return false;
            },
        };
        let n = g.as_str().unicode_len();
        if n != 40 {
            return false;
        }
        let mut k: usize = 0;
        while k < n
            invariant
                k <= n,
                n == g@.len(),
                forall|m: int| 0 <= m < k ==> is_hex_digit_char(#[trigger] g@[m]),
            decreases n - k,
        {
            if !is_hex_digit(g.as_str().get_char(k)) {
                return false;
            }
            k += 1;
        }
        true
    }

    /// The git ref when it is a pinned commit hash.
    pub fn commit_ref(&self) -> (r: Option<&str>)
        ensures
            match r {
                Some(g) => self.git_ref matches Some(gr) && gr@ == g@ && is_commit_ref(g@),
                None => match self.git_ref {
                    Some(g) => !is_commit_ref(g@),
                    None => true,
                },
            },
    {
        if self.ref_is_commit() {
            match &self.git_ref {
                Some(g) => Some(g.as_str()),
                None => None,
            }
        } else {
            None
        }
    }

    /// The git ref when it is symbolic (a branch or tag name, not a hash).
    pub fn symbolic_ref(&self) -> (r: Option<&str>)
        ensures
            match r {
                Some(g) => self.git_ref matches Some(gr) && gr@ == g@ && !is_commit_ref(g@),
                None => match self.git_ref {
                    Some(g) => is_commit_ref(g@),
                    None => true,
                },
            },
    {
        if self.ref_is_commit() {
            None
        } else {
            match &self.git_ref {
                Some(g) => Some(g.as_str()),
                None => None,
            }
        }
    }

    /// Whether this reference names the same action as `template`, comparing
    /// owner, repo and, when the template gives one, subpath, all ignoring
    /// ASCII case.
    pub fn matches_template(&self, template: &Uses) -> (r: bool)
        ensures
            r == (crate::text::lower_seq(self.owner@) == crate::text::lower_seq(template.owner@)
                && crate::text::lower_seq(self.repo@) == crate::text::lower_seq(template.repo@)
                && (match template.subpath {
                Some(t) => match self.subpath {
                    Some(s) => crate::text::lower_seq(s@) == crate::text::lower_seq(t@),
                    None => false,
                },
                None => true,
            })),
    {
        if !crate::text::eq_ignore_case(self.owner.as_str(), template.owner.as_str()) {
            return false;
        }
        if !crate::text::eq_ignore_case(self.repo.as_str(), template.repo.as_str()) {
            return false;
        }
        match &template.subpath {
            None => true,
            Some(t) => match &self.subpath {
                Some(s) => crate::text::eq_ignore_case(s.as_str(), t.as_str()),
                None => false,
            },
        }
    }
}

/// A whole workflow document's model.
#[derive(Debug)]
pub struct Workflow {
    /// The registry key of the document this model was read from.
    pub key: String,
    pub permissions: Permissions,
    pub env: LoE<Env>,
    pub jobs: Vec<Job>,
}

impl Workflow {
    /// The whole-document symbolic location.
    pub fn location(&self) -> (r: SymbolicLocation)
        ensures
            r.key@ == self.key@,
            route_model(r.route) == Seq::<(bool, Seq<char>, int)>::empty(),
            r.primary == false,
    {
        SymbolicLocation {
            key: self.key.clone(),
            annotation: String::new(),
            route: Route::new(),
            primary: false,
        }
    }

    /// The whole-document location narrowed to one top-level key.
    pub fn key_location(&self, key: &str) -> (r: SymbolicLocation)
        ensures
            r.key@ == self.key@,
            route_model(r.route) == seq![(true, key@, 0int)],
    {
        let base = self.location();
        let mut keys: Vec<RouteComponent> = Vec::new();
        keys.push(RouteComponent::Key(key.to_owned()));
        let r = base.with_keys(&keys);
        proof {
            assert(route_model(Route { components: keys }) =~= seq![(true, key@, 0int)]);
            assert(route_model(r.route) =~= seq![(true, key@, 0int)]);
        }
        r
    }
}

} // verus!
