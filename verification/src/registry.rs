//! Input keys and the finding aggregation pipeline: every finding a rule
//! returns lands in exactly one bucket — suppressed by persona, ignored by
//! filters and policy, or reported — and the pipeline tracks the worst
//! severity among reported findings as the run's outcome signal.

use vstd::prelude::*;
use vstd::string::*;
use crate::finding::{Confidence, Finding, Persona, Severity};
use crate::models::Uses;
use crate::text::{
    last_char_match, lemma_last_char_match, rfind_char, str_eq, substr_copy,
};

verus! {

/// A path with its trailing separators dropped.
pub open spec fn trim_trailing_slashes(p: Seq<char>) -> Seq<char>
    decreases p.len(),
{
    if p.len() > 0 && p[p.len() - 1] == '/' {
        trim_trailing_slashes(p.drop_last())
    } else {
        p
    }
}

/// The file-name component of a slash-separated path: the last segment once
/// trailing separators are dropped; absent for an empty path or one ending
/// in a current- or parent-directory segment.
pub open spec fn path_file_name(p: Seq<char>) -> Option<Seq<char>> {
    let t = trim_trailing_slashes(p);
    if t.len() == 0 {
        None
    } else {
        let seg = match last_char_match(t, '/') {
            Some(i) => t.subrange(i + 1, t.len() as int),
            None => t,
        };
        if seg.len() == 0 || seg == "."@ || seg == ".."@ {
            None
        } else {
            Some(seg)
        }
    }
}

/// Compute the file-name component of a path.
#[verifier::loop_isolation(false)]
fn file_name_of(p: &str) -> (r: Option<String>)
    ensures
        match r {
            Some(s) => path_file_name(p@) == Some(s@),
            None => path_file_name(p@) is None,
        },
{
    let n = p.unicode_len();
    let mut e: usize = n;
    proof {
        assert(p@.subrange(0, n as int) =~= p@);
    }
    while e > 0 && p.get_char(e - 1) == '/'
        invariant
            e <= n,
            trim_trailing_slashes(p@) == trim_trailing_slashes(p@.subrange(0, e as int)),
        decreases e,
    {
        proof {
            assert(p@.subrange(0, e as int).drop_last() =~= p@.subrange(0, e - 1));
        }
        e -= 1;
    }
    proof {
        if e > 0 {
            assert(p@.subrange(0, e as int)[e - 1] == p@[e - 1]);
        }
        assert(trim_trailing_slashes(p@) == p@.subrange(0, e as int));
    }
    if e == 0 {
        return None;
    }
    let t = p.substring_char(0, e);
    let tn = t.unicode_len();
    proof {
        lemma_last_char_match(t@, '/');
    }
    let seg = match rfind_char(t, '/') {
        Some(i) => substr_copy(t, i + 1, tn),
        None => t.to_owned(),
    };
    if seg.as_str().is_empty() {
        return None;
    }
    if str_eq(seg.as_str(), ".") || str_eq(seg.as_str(), "..") {
        return None;
    }
    Some(seg)
}

/// Building an input key can fail only for a path with no file-name
/// component.
#[derive(Copy, Clone, Debug, PartialEq, Eq, Structural)]
pub struct KeyError;

/// A key for an input found on disk: the given path, and the scan-root
/// prefix it was collected under, if any.
#[derive(Debug, Clone, PartialEq, Eq)]
pub struct LocalKey {
    pub prefix: Option<String>,
    pub given_path: String,
}

/// A key for an input fetched from a remote repository.
#[derive(Debug, Clone, PartialEq, Eq)]
pub struct RemoteKey {
    pub owner: String,
    pub repo: String,
    pub git_ref: Option<String>,
    pub path: String,
}

/// A unique, stably-orderable key for one input of a run.
#[derive(Debug, Clone, PartialEq, Eq)]
pub enum InputKey {
    Local(LocalKey),
    Remote(RemoteKey),
}

/// How a key renders: a `file://` URL for local inputs, a repository blob
/// URL for remote ones (an absent ref reads as `HEAD`).
pub open spec fn key_display(k: InputKey) -> Seq<char> {
    match k {
        InputKey::Local(l) => "file://"@ + l.given_path@,
        InputKey::Remote(r) => "https://github.com/"@ + r.owner@ + "/"@ + r.repo@ + "/blob/"@ + (
        match r.git_ref {
            Some(g) => g@,
            None => "HEAD"@,
        }) + "/"@ + r.path@,
    }
}

/// Strip a directory prefix from a path, if the prefix sits on a component
/// boundary.
pub open spec fn strip_path_prefix(p: Seq<char>, prefix: Seq<char>) -> Option<Seq<char>> {
    let q = trim_trailing_slashes(prefix);
    if p == q {
        Some(Seq::<char>::empty())
    } else if q.len() < p.len() && p.subrange(0, q.len() as int) == q && p[q.len() as int] == '/' {
        Some(p.subrange(q.len() as int + 1, p.len() as int))
    } else {
        None
    }
}

impl InputKey {
    /// A key for a local file; the path must have a file-name component.
    pub fn local(path: &str, prefix: Option<&str>) -> (r: Result<InputKey, KeyError>)
        ensures
            match r {
                Ok(k) => path_file_name(path@) is Some && (k matches InputKey::Local(l)
                    && l.given_path@ == path@ && l.prefix.deep_view() == prefix.deep_view()),
                Err(_) => path_file_name(path@) is None,
            },
    {
        match file_name_of(path) {
            None => Err(KeyError),
            Some(_) => Ok(
                InputKey::Local(
                    LocalKey {
                        prefix: match prefix {
                            Some(p) => Some(p.to_owned()),
                            None => None,
                        },
                        given_path: path.to_owned(),
                    },
                ),
            ),
        }
    }

    /// A key for a file within a remote repository; the path must have a
    /// file-name component.
    pub fn remote(slug: &Uses, path: &str) -> (r: Result<InputKey, KeyError>)
        ensures
            match r {
                Ok(k) => path_file_name(path@) is Some && (k matches InputKey::Remote(rk)
                    && rk.owner@ == slug.owner@ && rk.repo@ == slug.repo@ && rk.git_ref.deep_view()
                    == slug.git_ref.deep_view() && rk.path@ == path@),
                Err(_) => path_file_name(path@) is None,
            },
    {
        match file_name_of(path) {
            None => Err(KeyError),
            Some(_) => Ok(
                InputKey::Remote(
                    RemoteKey {
                        owner: slug.owner.clone(),
                        repo: slug.repo.clone(),
                        git_ref: match &slug.git_ref {
                            Some(g) => Some(g.clone()),
                            None => None,
                        },
                        path: path.to_owned(),
                    },
                ),
            ),
        }
    }

    /// Render the key as its stable display form.
    pub fn to_string(&self) -> (r: String)
        ensures
            r@ == key_display(*self),
    {
        match self {
            InputKey::Local(l) => {
                let mut s = String::new();
                s.append("file://");
                s.append(l.given_path.as_str());
                s
            },
            InputKey::Remote(rk) => {
                let mut s = String::new();
                s.append("https://github.com/");
                s.append(rk.owner.as_str());
                s.append("/");
                s.append(rk.repo.as_str());
                s.append("/blob/");
                match &rk.git_ref {
                    Some(g) => s.append(g.as_str()),
                    None => s.append("HEAD"),
                }
                s.append("/");
                s.append(rk.path.as_str());
                s
            },
        }
    }

    /// A best-effort relative path: always relative for remote keys, and
    /// relative to the collection prefix for local keys when the prefix
    /// strips cleanly.
    pub fn best_effort_relative_path(&self) -> (r: String)
        ensures
            r@ == match *self {
                InputKey::Local(l) => match l.prefix {
                    Some(pfx) => match strip_path_prefix(l.given_path@, pfx@) {
                        Some(stripped) => stripped,
                        None => l.given_path@,
                    },
                    None => l.given_path@,
                },
                InputKey::Remote(rk) => rk.path@,
            },
    {
        match self {
            InputKey::Remote(rk) => rk.path.clone(),
            InputKey::Local(l) => {
                let pfx = match &l.prefix {
                    None => {
                        return l.given_path.clone();
                    },
                    Some(p) => p,
                };
                let path = l.given_path.as_str();
                let n = path.unicode_len();
                let pn = pfx.as_str().unicode_len();
                let mut e: usize = pn;
                proof {
                    assert(pfx@.subrange(0, pn as int) =~= pfx@);
                }
                while e > 0 && pfx.as_str().get_char(e - 1) == '/'
                    invariant
                        e <= pn,
                        pn == pfx@.len(),
                        trim_trailing_slashes(pfx@) == trim_trailing_slashes(
                            pfx@.subrange(0, e as int),
                        ),
                    decreases e,
                {
                    proof {
                        assert(pfx@.subrange(0, e as int).drop_last() =~= pfx@.subrange(0, e - 1));
                    }
                    e -= 1;
                }
                proof {
                    if e > 0 {
                        assert(pfx@.subrange(0, e as int)[e - 1] == pfx@[e - 1]);
                    }
                    assert(trim_trailing_slashes(pfx@) == pfx@.subrange(0, e as int));
                }
                let q = pfx.as_str().substring_char(0, e);
                if str_eq(path, q) {
                    proof {
                        assert(strip_path_prefix(l.given_path@, pfx@) == Some(Seq::<char>::empty()));
                    }
                    let r = String::new();
                    return r;
                }
                let qn = q.unicode_len();
                if qn < n && crate::text::starts_at(path, q, 0) && path.get_char(qn) == '/' {
                    return substr_copy(path, qn + 1, n);
                }
                l.given_path.clone()
            },
        }
    }

    /// The file-name component of the key's path.
    pub fn filename(&self) -> (r: String)
        requires
            match *self {
                InputKey::Local(l) => path_file_name(l.given_path@) is Some,
                InputKey::Remote(rk) => path_file_name(rk.path@) is Some,
            },
        ensures
            Some(r@) == match *self {
                InputKey::Local(l) => path_file_name(l.given_path@),
                InputKey::Remote(rk) => path_file_name(rk.path@),
            },
    {
        let p = match self {
            InputKey::Local(l) => l.given_path.as_str(),
            InputKey::Remote(rk) => rk.path.as_str(),
        };
        match file_name_of(p) {
            Some(s) => s,
            None => {
                // Unreachable: the constructors establish a file name.
                proof {
                    assert(false);
                }
                String::new()
            },
        }
    }
}

/// How a run collects inputs from local and remote sources.
#[derive(Copy, Clone, Debug, PartialEq, Eq, Structural)]
pub enum CollectionMode {
    /// Collect all possible inputs, ignoring ignore files.
    All,
    /// Collect all possible inputs, respecting ignore files.
    Default,
    /// Collect only workflow definitions.
    WorkflowsOnly,
    /// Collect only action definitions.
    ActionsOnly,
}

impl CollectionMode {
    /// Whether collection honors ignore files.
    pub fn respects_gitignore(&self) -> (r: bool)
        ensures
            r == !(*self is All),
    {
        match self {
            CollectionMode::All => false,
            _ => true,
        }
    }

    /// Whether collection takes workflow definitions.
    pub fn workflows(&self) -> (r: bool)
        ensures
            r == (*self is All || *self is Default || *self is WorkflowsOnly),
    {
        match self {
            CollectionMode::All => true,
            CollectionMode::Default => true,
            CollectionMode::WorkflowsOnly => true,
            CollectionMode::ActionsOnly => false,
        }
    }

    /// Whether collection takes action definitions.
    pub fn actions(&self) -> (r: bool)
        ensures
            r == (*self is All || *self is Default || *self is ActionsOnly),
    {
        match self {
            CollectionMode::All => true,
            CollectionMode::Default => true,
            CollectionMode::WorkflowsOnly => false,
            CollectionMode::ActionsOnly => true,
        }
    }
}

/// Which bucket one finding lands in, under a run's persona and filters:
/// 0 suppressed (the finding's persona is more permissive than the run's),
/// 1 ignored (inline suppression, below a threshold, or the ignore policy),
/// 2 reported.
pub open spec fn finding_disposition(
    f: Finding,
    persona: Persona,
    min_severity: Option<Severity>,
    min_confidence: Option<Confidence>,
    policy_ignored: bool,
) -> int {
    if persona.rank_spec() > f.determinations.persona.rank_spec() {
        0int
    } else if f.ignored || (match min_severity {
        Some(m) => m.rank_spec() > f.determinations.severity.rank_spec(),
        None => false,
    }) || (match min_confidence {
        Some(m) => m.rank_spec() > f.determinations.confidence.rank_spec(),
        None => false,
    }) || policy_ignored {
        1int
    } else {
        2int
    }
}

/// The findings of `results` that land in bucket `which`, in order.
pub open spec fn bucket_of(
    results: Seq<Finding>,
    policy: Seq<bool>,
    persona: Persona,
    min_severity: Option<Severity>,
    min_confidence: Option<Confidence>,
    which: int,
) -> Seq<Finding>
    decreases results.len(),
{
    if results.len() == 0 {
        Seq::empty()
    } else {
        let rest = bucket_of(
            results.drop_first(),
            policy.drop_first(),
            persona,
            min_severity,
            min_confidence,
            which,
        );
        if finding_disposition(results[0], persona, min_severity, min_confidence, policy[0])
            == which {
            seq![results[0]] + rest
        } else {
            rest
        }
    }
}

/// The worst severity seen after folding the reported findings of `results`
/// over the starting value `acc`.
pub open spec fn max_reported_severity(
    acc: Option<Severity>,
    results: Seq<Finding>,
    policy: Seq<bool>,
    persona: Persona,
    min_severity: Option<Severity>,
    min_confidence: Option<Confidence>,
) -> Option<Severity>
    decreases results.len(),
{
    if results.len() == 0 {
        acc
    } else {
        let f = results[0];
        let acc2 = if finding_disposition(f, persona, min_severity, min_confidence, policy[0]) == 2
            && (match acc {
            Some(s) => f.determinations.severity.rank_spec() > s.rank_spec(),
            None => true,
        }) {
            Some(f.determinations.severity)
        } else {
            acc
        };
        max_reported_severity(
            acc2,
            results.drop_first(),
            policy.drop_first(),
            persona,
            min_severity,
            min_confidence,
        )
    }
}

/// Law: persona ordering. A run for the regular persona never reports a
/// finding aimed at the pedantic or auditor personas — such findings are
/// suppressed — and a run for the auditor persona suppresses nothing.
pub proof fn lemma_persona_ordering(
    f: Finding,
    min_severity: Option<Severity>,
    min_confidence: Option<Confidence>,
    policy_ignored: bool,
)
    ensures
        f.determinations.persona != Persona::Regular ==> finding_disposition(
            f,
            Persona::Regular,
            min_severity,
            min_confidence,
            policy_ignored,
        ) == 0,
        finding_disposition(f, Persona::Auditor, min_severity, min_confidence, policy_ignored)
            != 0,
{
}

/// The findings discovered during one run, split into their buckets.
pub struct FindingRegistry {
    pub persona: Persona,
    pub minimum_severity: Option<Severity>,
    pub minimum_confidence: Option<Confidence>,
    pub suppressed: Vec<Finding>,
    pub ignored: Vec<Finding>,
    pub findings: Vec<Finding>,
    pub highest_seen_severity: Option<Severity>,
}

impl FindingRegistry {
    pub fn new(
        persona: Persona,
        minimum_severity: Option<Severity>,
        minimum_confidence: Option<Confidence>,
    ) -> (r: FindingRegistry)
        ensures
            r.persona == persona,
            r.minimum_severity == minimum_severity,
            r.minimum_confidence == minimum_confidence,
            r.suppressed@.len() == 0,
            r.ignored@.len() == 0,
            r.findings@.len() == 0,
            r.highest_seen_severity is None,
    {
        FindingRegistry {
            persona,
            minimum_severity,
            minimum_confidence,
            suppressed: Vec::new(),
            ignored: Vec::new(),
            findings: Vec::new(),
            highest_seen_severity: None,
        }
    }

    /// File a batch of findings, one bucket each; `policy_ignored[i]` is the
    /// ignore-policy collaborator's verdict on `results[i]`.
    #[verifier::loop_isolation(false)]
    pub fn extend(&mut self, results: Vec<Finding>, policy_ignored: &Vec<bool>)
        requires
            results@.len() == policy_ignored@.len(),
        ensures
            final(self).persona == old(self).persona,
            final(self).minimum_severity == old(self).minimum_severity,
            final(self).minimum_confidence == old(self).minimum_confidence,
            final(self).suppressed@ == old(self).suppressed@ + bucket_of(
                results@,
                policy_ignored@,
                old(self).persona,
                old(self).minimum_severity,
                old(self).minimum_confidence,
                0,
            ),
            final(self).ignored@ == old(self).ignored@ + bucket_of(
                results@,
                policy_ignored@,
                old(self).persona,
                old(self).minimum_severity,
                old(self).minimum_confidence,
                1,
            ),
            final(self).findings@ == old(self).findings@ + bucket_of(
                results@,
                policy_ignored@,
                old(self).persona,
                old(self).minimum_severity,
                old(self).minimum_confidence,
                2,
            ),
            final(self).highest_seen_severity == max_reported_severity(
                old(self).highest_seen_severity,
                results@,
                policy_ignored@,
                old(self).persona,
                old(self).minimum_severity,
                old(self).minimum_confidence,
            ),
    {
        let ghost results0 = results@;
        let ghost policy0 = policy_ignored@;
        let ghost p = self.persona;
        let ghost ms = self.minimum_severity;
        let ghost mc = self.minimum_confidence;
        let mut results = results;
        let total = results.len();
        let mut i: usize = 0;
        proof {
            assert(results0.skip(0) =~= results0);
            assert(policy0.skip(0) =~= policy0);
        }
        while results.len() > 0
            invariant
                i + results@.len() == results0.len(),
                total == results0.len(),
                i <= total,
                results0.len() == policy0.len(),
                results@ == results0.skip(i as int),
                policy_ignored@ == policy0,
                self.persona == old(self).persona,
                self.minimum_severity == old(self).minimum_severity,
                self.minimum_confidence == old(self).minimum_confidence,
                old(self).suppressed@ + bucket_of(results0, policy0, p, ms, mc, 0)
                    == self.suppressed@ + bucket_of(
                    results0.skip(i as int),
                    policy0.skip(i as int),
                    p,
                    ms,
                    mc,
                    0,
                ),
                old(self).ignored@ + bucket_of(results0, policy0, p, ms, mc, 1) == self.ignored@
                    + bucket_of(results0.skip(i as int), policy0.skip(i as int), p, ms, mc, 1),
                old(self).findings@ + bucket_of(results0, policy0, p, ms, mc, 2) == self.findings@
                    + bucket_of(results0.skip(i as int), policy0.skip(i as int), p, ms, mc, 2),
                max_reported_severity(old(self).highest_seen_severity, results0, policy0, p, ms, mc)
                    == max_reported_severity(
                    self.highest_seen_severity,
                    results0.skip(i as int),
                    policy0.skip(i as int),
                    p,
                    ms,
                    mc,
                ),
            decreases results@.len(),
        {
            proof {
                assert(results0.skip(i as int)[0] == results@[0]);
                assert(policy0.skip(i as int)[0] == policy0[i as int]);
                assert(results0.skip(i as int).drop_first() =~= results0.skip(i + 1));
                assert(policy0.skip(i as int).drop_first() =~= policy0.skip(i + 1));
            }
            let f = results.remove(0);
            let policy = policy_ignored[i];
            let suppressed_by_persona = self.persona.rank() > f.determinations.persona.rank();
            if suppressed_by_persona {
                self.suppressed.push(f);
            } else {
                let below_severity = match &self.minimum_severity {
                    Some(m) => m.rank() > f.determinations.severity.rank(),
                    None => false,
                };
                let below_confidence = match &self.minimum_confidence {
                    Some(m) => m.rank() > f.determinations.confidence.rank(),
                    None => false,
                };
                if f.ignored || below_severity || below_confidence || policy {
                    self.ignored.push(f);
                } else {
                    let replace = match &self.highest_seen_severity {
                        Some(s) => f.determinations.severity.rank() > s.rank(),
                        None => true,
                    };
                    if replace {
                        self.highest_seen_severity = Some(f.determinations.severity);
                    }
                    self.findings.push(f);
                }
            }
            i += 1;
        }
        proof {
            assert(results0.skip(i as int) =~= Seq::<Finding>::empty());
            assert(policy0.skip(i as int) =~= Seq::<bool>::empty());
            assert(self.suppressed@ + Seq::<Finding>::empty() =~= self.suppressed@);
            assert(self.ignored@ + Seq::<Finding>::empty() =~= self.ignored@);
            assert(self.findings@ + Seq::<Finding>::empty() =~= self.findings@);
        }
    }

    /// The total count of findings filed, whatever their bucket.
    pub fn count(&self) -> (r: usize)
        requires
            self.findings@.len() + self.ignored@.len() + self.suppressed@.len() <= usize::MAX,
        ensures
            r as int == self.findings@.len() + self.ignored@.len() + self.suppressed@.len(),
    {
        self.findings.len() + self.ignored.len() + self.suppressed.len()
    }

    /// All reported findings.
    pub fn findings(&self) -> (r: &Vec<Finding>)
        ensures
            r@ == self.findings@,
    {
        &self.findings
    }

    /// All filter- or policy-ignored findings.
    pub fn ignored(&self) -> (r: &Vec<Finding>)
        ensures
            r@ == self.ignored@,
    {
        &self.ignored
    }

    /// All persona-suppressed findings.
    pub fn suppressed(&self) -> (r: &Vec<Finding>)
        ensures
            r@ == self.suppressed@,
    {
        &self.suppressed
    }

    /// The run's outcome signal: zero for no reported findings, otherwise a
    /// code that grows with the worst reported severity.
    pub fn outcome_code(&self) -> (r: u8)
        ensures
            match self.highest_seen_severity {
                None => r == 0,
                Some(s) => r as int == 10 + s.rank_spec(),
            },
    {
        match &self.highest_seen_severity {
            None => 0,
            Some(s) => 10 + s.rank(),
        }
    }
}

} // verus!
