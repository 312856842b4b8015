//! Flags unpinned action references: a `uses:` clause with no ref at all, or
//! one pinned to a symbolic ref rather than a commit hash.

use vstd::prelude::*;
use vstd::string::*;
use crate::audit::secret_without_env::step_route;
use crate::document::input_route_resolves;
use crate::finding::{Persona, Severity};
use crate::models::{Uses, is_commit_ref, uses_split_spec};
use crate::text::{
    find_char_before, first_char_match, last_char_match, lemma_first_char_match,
    lemma_last_char_match, matches_at, rfind_char, starts_at, substr_copy,
};

verus! {

/// The components of a `docker://` image reference.
#[derive(Debug, Clone, PartialEq, Eq)]
pub struct DockerUses {
    pub registry: Option<String>,
    pub image: String,
    pub tag: Option<String>,
    pub hash: Option<String>,
}

/// Any `uses:` clause: a local path, a repository action, or a container
/// image.
#[derive(Debug, Clone, PartialEq, Eq)]
pub enum UsesClause {
    Local(String),
    Repository(Uses),
    Docker(DockerUses),
}

/// How a `docker://` body (the text after the scheme) splits: the hash is
/// everything after the last `@`; a leading segment containing a dot or a
/// colon is the registry; the tag is everything after the last colon of what
/// remains.
pub open spec fn docker_split_spec(body: Seq<char>) -> (
    Option<Seq<char>>,
    Seq<char>,
    Option<Seq<char>>,
    Option<Seq<char>>,
) {
    let (rest, hash) = match last_char_match(body, '@') {
        Some(h) => (body.subrange(0, h), Some(body.subrange(h + 1, body.len() as int))),
        None => (body, None),
    };
    let (registry, img) = match first_char_match(rest, '/', 0) {
        Some(k) => {
            let lead = rest.subrange(0, k);
            if first_char_match(lead, '.', 0) is Some || first_char_match(lead, ':', 0) is Some {
                (Some(lead), rest.subrange(k + 1, rest.len() as int))
            } else {
                (None, rest)
            }
        },
        None => (None, rest),
    };
    match last_char_match(img, ':') {
        Some(t) => (registry, img.subrange(0, t), Some(img.subrange(t + 1, img.len() as int)), hash),
        None => (registry, img, None, hash),
    }
}

/// A reference is "unpinned" when it names no ref at all.
pub open spec fn unpinned_spec(u: UsesClause) -> bool {
    match u {
        UsesClause::Repository(r) => r.git_ref is None,
        UsesClause::Docker(d) => d.hash is None && d.tag is None,
        UsesClause::Local(_) => false,
    }
}

/// A reference is "unhashed" when it names a ref that is not a commit hash.
pub open spec fn unhashed_spec(u: UsesClause) -> bool {
    match u {
        UsesClause::Repository(r) => match r.git_ref {
            Some(g) => !is_commit_ref(g@),
            None => false,
        },
        UsesClause::Docker(d) => d.hash is None,
        UsesClause::Local(_) => false,
    }
}

impl UsesClause {
    /// Parse any step `uses:` text into a clause; text that is neither
    /// local, nor a container image, nor a splittable repository reference
    /// yields `None`.
    pub fn parse(text: &str) -> (r: Option<UsesClause>)
        ensures
            match r {
                Some(u) => match u {
                    UsesClause::Local(l) => matches_at(text@, "./"@, 0) && l@ == text@,
                    UsesClause::Docker(d) => matches_at(text@, "docker://"@, 0)
                        && docker_split_spec(text@.subrange(9, text@.len() as int)) == (
                        d.registry.deep_view(),
                        d.image@,
                        d.tag.deep_view(),
                        d.hash.deep_view(),
                    ),
                    UsesClause::Repository(u) => !matches_at(text@, "docker://"@, 0)
                        && uses_split_spec(text@) == Some(
                        (u.owner@, u.repo@, u.subpath.deep_view(), u.git_ref.deep_view()),
                    ),
                },
                None => !matches_at(text@, "./"@, 0) && !matches_at(text@, "docker://"@, 0)
                    && uses_split_spec(text@) is None,
            },
    {
        proof {
            reveal_strlit("./");
            reveal_strlit("docker://");
        }
        let n = text.unicode_len();
        if starts_at(text, "./", 0) {
            return Some(UsesClause::Local(text.to_owned()));
        }
        if starts_at(text, "docker://", 0) {
            let body = substr_copy(text, 9, n);
            return Some(UsesClause::Docker(parse_docker_body(body.as_str())));
        }
        match Uses::from_common(text) {
            Some(u) => Some(UsesClause::Repository(u)),
            None => None,
        }
    }
}

/// Split the body of a `docker://` reference into its components.
fn parse_docker_body(body: &str) -> (r: DockerUses)
    ensures
        docker_split_spec(body@) == (
            r.registry.deep_view(),
            r.image@,
            r.tag.deep_view(),
            r.hash.deep_view(),
        ),
{
    let n = body.unicode_len();
    proof {
        lemma_last_char_match(body@, '@');
    }
    let (rest, hash) = match rfind_char(body, '@') {
        Some(h) => (substr_copy(body, 0, h), Some(substr_copy(body, h + 1, n))),
        None => (body.to_owned(), None),
    };
    proof {
        assert(body@.subrange(0, n as int) =~= body@);
    }
    let rn = rest.as_str().unicode_len();
    let (registry, img) = match find_char_before(rest.as_str(), '/', 0, rn) {
        Some(k) => {
            proof {
                lemma_first_char_match(rest@, '/', 0);
                match first_char_match(rest@, '/', 0) {
                    Some(kk) => {
                        if kk < k as int {
                            assert(rest@[kk] != '/');
                        }
                        if kk > k as int {
                            assert(rest@[k as int] != '/');
                        }
                    },
                    None => {
                        assert(rest@[k as int] != '/');
                    },
                }
            }
            let lead = substr_copy(rest.as_str(), 0, k);
            let ln = lead.as_str().unicode_len();
            let has_dot = match find_char_before(lead.as_str(), '.', 0, ln) {
                Some(_) => true,
                None => false,
            };
            let has_colon = match find_char_before(lead.as_str(), ':', 0, ln) {
                Some(_) => true,
                None => false,
            };
            proof {
                lemma_first_char_match(lead@, '.', 0);
                lemma_first_char_match(lead@, ':', 0);
                match first_char_match(lead@, '.', 0) {
                    Some(kk) => {
                        assert(lead@[kk] == '.');
                    },
                    None => {},
                }
                match first_char_match(lead@, ':', 0) {
                    Some(kk) => {
                        assert(lead@[kk] == ':');
                    },
                    None => {},
                }
            }
            if has_dot || has_colon {
                (Some(lead), substr_copy(rest.as_str(), k + 1, rn))
            } else {
                (None, rest)
            }
        },
        None => {
            proof {
                lemma_first_char_match(rest@, '/', 0);
                match first_char_match(rest@, '/', 0) {
                    Some(kk) => {
                        assert(rest@[kk] == '/');
                    },
                    None => {},
                }
            }
            (None, rest)
        },
    };
    let inn = img.as_str().unicode_len();
    proof {
        lemma_last_char_match(img@, ':');
        assert(img@.subrange(0, inn as int) =~= img@);
    }
    match rfind_char(img.as_str(), ':') {
        Some(t) => {
            let tag = substr_copy(img.as_str(), t + 1, inn);
            let image = substr_copy(img.as_str(), 0, t);
            DockerUses { registry, image, tag: Some(tag), hash }
        },
        None => DockerUses { registry, image: img, tag: None, hash },
    }
}


/// How a step's `uses:` text is flagged, straight from the text: no entry
/// for local references, unparseable references, or hash-pinned ones; a
/// medium/regular entry for a reference with no ref at all; a low/pedantic
/// entry for a symbolic ref.
pub open spec fn pinning_entry(t: Seq<char>) -> Option<(Severity, Persona)> {
    if matches_at(t, "./"@, 0) {
        None
    } else if matches_at(t, "docker://"@, 0) {
        let parts = docker_split_spec(t.subrange(9, t.len() as int));
        if parts.3 is None && parts.2 is None {
            Some((Severity::Medium, Persona::Regular))
        } else if parts.3 is None {
            Some((Severity::Low, Persona::Pedantic))
        } else {
            None
        }
    } else {
        match uses_split_spec(t) {
            None => None,
            Some(parts) => match parts.3 {
                None => Some((Severity::Medium, Persona::Regular)),
                Some(g) => if !is_commit_ref(g) {
                    Some((Severity::Low, Persona::Pedantic))
                } else {
                    None
                },
            },
        }
    }
}

/// Detects unpinned action references.
pub struct UnpinnedUses;

impl UnpinnedUses {
    /// Audit one step: exactly one high-confidence finding at the `uses:`
    /// clause when [`pinning_entry`] flags it, with that entry's severity
    /// and persona; none otherwise.
    pub fn audit_step(
        &self,
        workflow: &crate::models::Workflow,
        job: &crate::models::Job,
        step: &crate::models::Step,
        input: &crate::document::Input,
    ) -> (r: Result<Vec<crate::finding::Finding>, crate::finding::BuildError>)
        requires
            input.wf(),
        ensures
            !(r matches Err(crate::finding::BuildError::NoPrimaryLocation)),
            match r {
                Ok(v) => ({
                    let entry = match step.body {
                        crate::models::StepBody::Uses { uses, .. } => pinning_entry(uses@),
                        crate::models::StepBody::Run { .. } => None,
                    };
                    match entry {
                        Some((sev, per)) => v@.len() == 1 && v@[0].ident@ == "unpinned-uses"@
                            && v@[0].determinations.severity == sev
                            && v@[0].determinations.persona == per
                            && v@[0].determinations.confidence
                            == crate::finding::Confidence::High
                            && v@[0].locations@[0].symbolic.primary
                            && crate::finding::route_model(v@[0].locations@[0].symbolic.route)
                            == step_route(*job, *step) + seq![(true, "uses"@, 0int)],
                        None => v@.len() == 0,
                    }
                }),
                Err(_) => !input_route_resolves(
                    *input,
                    step_route(*job, *step) + seq![(true, "uses"@, 0int)],
                ),
            },
    {
        let mut findings: Vec<crate::finding::Finding> = Vec::new();
        let uses_text = match &step.body {
            crate::models::StepBody::Uses { uses, .. } => uses,
            crate::models::StepBody::Run { .. } => {
                return Ok(findings);
            },
        };
        let clause = match UsesClause::parse(uses_text.as_str()) {
            Some(c) => c,
            None => {
                return Ok(findings);
            },
        };
        proof {
            reveal_strlit("./");
            reveal_strlit("docker://");
            match &clause {
                UsesClause::Local(_) => {
                    assert(pinning_entry(uses_text@) is None);
                },
                UsesClause::Repository(u) => {
                    match &u.git_ref {
                        Some(g) => {
                            assert(u.git_ref.deep_view() == Some(g@));
                            assert(pinning_entry(uses_text@) == (if !is_commit_ref(g@) {
                                Some((Severity::Low, Persona::Pedantic))
                            } else {
                                None::<(Severity, Persona)>
                            }));
                        },
                        None => {
                            assert(u.git_ref.deep_view() is None);
                            assert(pinning_entry(uses_text@) == Some(
                                (Severity::Medium, Persona::Regular),
                            ));
                        },
                    }
                },
                UsesClause::Docker(d) => {
                    assert(!matches_at(uses_text@, "./"@, 0)) by {
                        if matches_at(uses_text@, "./"@, 0) {
                            assert(uses_text@.subrange(0, 2)[0] == uses_text@[0]);
                            assert(uses_text@.subrange(0, 9)[0] == uses_text@[0]);
                        }
                    }
                    match (&d.tag, &d.hash) {
                        (None, None) => {
                            assert(d.tag.deep_view() is None);
                            assert(d.hash.deep_view() is None);
                            assert(pinning_entry(uses_text@) == Some(
                                (Severity::Medium, Persona::Regular),
                            ));
                        },
                        (Some(_), None) => {
                            assert(d.tag.deep_view() is Some);
                            assert(d.hash.deep_view() is None);
                            assert(pinning_entry(uses_text@) == Some(
                                (Severity::Low, Persona::Pedantic),
                            ));
                        },
                        (_, Some(_)) => {
                            assert(d.hash.deep_view() is Some);
                            assert(pinning_entry(uses_text@) is None);
                        },
                    }
                },
            }
        }
        let (annotation, severity, persona) = match self.evaluate_pinning(&clause) {
            Some(t) => t,
            None => {
                return Ok(findings);
            },
        };
        let job_location = job.location(&workflow.location());
        let mut uses_keys: Vec<crate::finding::RouteComponent> = Vec::new();
        uses_keys.push(crate::finding::RouteComponent::Key("uses".to_owned()));
        let loc = step.location(&job_location).primary().with_keys(&uses_keys).annotated(
            annotation.to_owned(),
        );
        let ghost lr = crate::finding::route_model(loc.route);
        proof {
            assert(lr =~= step_route(*job, *step) + seq![(true, "uses"@, 0int)]);
        }
        let b = crate::finding::FindingBuilder::new(
            "unpinned-uses",
            "unpinned action reference",
            "https://docs.zizmor.sh/audits#unpinned-uses",
        ).confidence(crate::finding::Confidence::High).severity(severity).persona(persona)
            .add_location(loc);
        let ghost blocs = b.locations@;
        let built = b.build(input);
        match built {
            Ok(f) => {
                findings.push(f);
                Ok(findings)
            },
            Err(e) => {
                proof {
                    crate::finding::lemma_some_primary_here(blocs, b.raw_locations@, 0);
                    if e is Unresolvable {
                        crate::finding::lemma_unresolvable_witness(*input, blocs);
                        let bi = choose|bi: int|
                            0 <= bi < blocs.len() && !input_route_resolves(
                                *input,
                                crate::finding::route_model(blocs[bi].route),
                            );
                        assert(bi == 0);
                    }
                }
                Err(e)
            },
        }
    }
}

impl UnpinnedUses {
    /// The rule's stable identifier.
    pub fn ident() -> (r: &'static str)
        ensures
            r@ == "unpinned-uses"@,
    {
        "unpinned-uses"
    }

    /// How a `uses:` clause is pinned: a local reference never needs
    /// pinning; a reference with no ref at all is a medium-severity finding
    /// for every audience; one pinned to a symbolic ref rather than a hash
    /// is a low-severity finding for the pedantic audience; a hash-pinned
    /// reference passes.
    pub fn evaluate_pinning(&self, uses: &UsesClause) -> (r: Option<
        (&'static str, Severity, Persona),
    >)
        ensures
            match r {
                Some(t) => !(uses is Local) && ((unpinned_spec(*uses) && t.0@
                    == "action is not pinned to a tag, branch, or hash ref"@ && t.1
                    == Severity::Medium && t.2 == Persona::Regular) || (!unpinned_spec(*uses)
                    && unhashed_spec(*uses) && t.0@ == "action is not pinned to a hash ref"@ && t.1
                    == Severity::Low && t.2 == Persona::Pedantic)),
                None => uses is Local || (!unpinned_spec(*uses) && !unhashed_spec(*uses)),
            },
    {
        match uses {
            UsesClause::Local(_) => {
                return None;
            },
            _ => {},
        }
        let unpinned = match uses {
            UsesClause::Repository(r) => match &r.git_ref {
                Some(_) => false,
                None => true,
            },
            UsesClause::Docker(d) => {
                let no_hash = match &d.hash {
                    Some(_) => false,
                    None => true,
                };
                let no_tag = match &d.tag {
                    Some(_) => false,
                    None => true,
                };
                no_hash && no_tag
            },
            UsesClause::Local(_) => false,
        };
        if unpinned {
            return Some(
                ("action is not pinned to a tag, branch, or hash ref", Severity::Medium, Persona::Regular),
            );
        }
        let unhashed = match uses {
            UsesClause::Repository(r) => !r.ref_is_commit(),
            UsesClause::Docker(d) => match &d.hash {
                Some(_) => false,
                None => true,
            },
            UsesClause::Local(_) => false,
        };
        if unhashed {
            return Some(("action is not pinned to a hash ref", Severity::Low, Persona::Pedantic));
        }
        None
    }
}

} // verus!
