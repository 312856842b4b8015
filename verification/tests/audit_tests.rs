//! End-to-end tests for the audit rules over the workflow model and real
//! documents, plus the provenance decision logic and marker utilities.

use zizmor::audit::excessive_permissions::ExcessivePermissions;
use zizmor::audit::impostor_commit::ImpostorCommit;
use zizmor::audit::insecure_commands::InsecureCommands;
use zizmor::audit::ref_confusion::RefConfusion;
use zizmor::audit::secrets_inherit::SecretsInherit;
use zizmor::audit::template_injection::TemplateInjection;
use zizmor::audit::unpinned_uses::UnpinnedUses;
use zizmor::audit::use_trusted_publishing::UseTrustedPublishing;
use zizmor::document::Input;
use zizmor::finding::{Confidence, Persona, Severity};
use zizmor::github_api::{Branch, Comparison, ComparisonStatus, RefCommit, Tag};
use zizmor::models::{
    BasePermission, Env, EnvValue, Job, LoE, NormalJob, Permissions, ReusableWorkflowCallJob,
    Step, StepBody, Uses, Workflow,
};
use zizmor::utils::{ExplicitExpr, extract_expressions, split_patterns};

const WORKFLOW_YAML: &str = "\
name: sample
env:
  ACTIONS_ALLOW_UNSECURE_COMMANDS: 'true'
permissions: write-all
jobs:
  build:
    runs-on: ubuntu-latest
    permissions: read-all
    steps:
      - uses: actions/checkout@v4
      - run: echo ${{ github.event.issue.title }}
  deploy:
    uses: octo-org/repo/.github/workflows/deploy.yml@main
    secrets: inherit
";

fn sample_input() -> Input {
    Input::new("file://sample.yml".to_string(), WORKFLOW_YAML.to_string()).unwrap()
}

fn sample_workflow() -> Workflow {
    let checkout = Step::new(
        0,
        None,
        None,
        None,
        StepBody::Uses {
            uses: "actions/checkout@v4".to_string(),
            with: Env { entries: vec![] },
        },
    );
    let run = Step::new(
        1,
        None,
        None,
        None,
        StepBody::Run {
            run: "echo ${{ github.event.issue.title }}".to_string(),
            shell: None,
            working_directory: None,
            env: LoE::Literal(Env { entries: vec![] }),
        },
    );
    let build = NormalJob {
        id: "build".to_string(),
        name: None,
        if_expr: None,
        env: LoE::Literal(Env { entries: vec![] }),
        permissions: Permissions::Base(BasePermission::ReadAll),
        strategy: None,
        environment: None,
        steps: vec![checkout, run],
    };
    let deploy = ReusableWorkflowCallJob {
        id: "deploy".to_string(),
        uses: "octo-org/repo/.github/workflows/deploy.yml@main".to_string(),
        if_expr: None,
        inherits_secrets: true,
    };
    Workflow {
        key: "file://sample.yml".to_string(),
        permissions: Permissions::Base(BasePermission::WriteAll),
        env: LoE::Literal(Env {
            entries: vec![(
                "ACTIONS_ALLOW_UNSECURE_COMMANDS".to_string(),
                EnvValue::Text("true".to_string()),
            )],
        }),
        jobs: vec![Job::Normal(build), Job::Reusable(deploy)],
    }
}

#[test]
fn insecure_commands_audits_workflow_env() {
    let input = sample_input();
    let workflow = sample_workflow();
    let findings = InsecureCommands.audit_workflow(&workflow, &input).unwrap();
    assert_eq!(findings.len(), 1);
    assert_eq!(findings[0].ident, "insecure-commands");
    assert_eq!(findings[0].determinations.severity, Severity::High);
    assert!(findings[0].locations[0].concrete.feature.contains("ACTIONS_ALLOW_UNSECURE_COMMANDS"));
}

#[test]
fn excessive_permissions_flags_blanket_grants() {
    let input = sample_input();
    let workflow = sample_workflow();
    let findings = ExcessivePermissions.audit(&workflow, &input).unwrap();
    // write-all at the workflow level, and a blanket read-all at the job
    // level.
    assert_eq!(findings.len(), 2);
    assert_eq!(findings[0].determinations.severity, Severity::High);
    assert!(findings[0].locations[0].concrete.feature.contains("write-all"));
    assert_eq!(findings[1].determinations.severity, Severity::Medium);
    assert!(findings[1].locations[0].concrete.feature.contains("read-all"));
}

#[test]
fn secrets_inherit_flags_reusable_call() {
    let input = sample_input();
    let workflow = sample_workflow();
    let job = &workflow.jobs[1];
    let reusable = match job {
        Job::Reusable(r) => r,
        Job::Normal(_) => panic!("expected the reusable job"),
    };
    let findings = SecretsInherit.audit_reusable_job(&workflow, job, reusable, &input).unwrap();
    assert_eq!(findings.len(), 1);
    assert_eq!(findings[0].ident, "secrets-inherit");
    assert!(findings[0].locations[1].concrete.feature.contains("inherit"));
}

#[test]
fn template_injection_audits_run_step() {
    let input = sample_input();
    let workflow = sample_workflow();
    let job = &workflow.jobs[0];
    let normal = match job {
        Job::Normal(n) => n,
        Job::Reusable(_) => panic!("expected the normal job"),
    };
    let step = &normal.steps[1];
    let findings = TemplateInjection
        .audit_step(&workflow, job, normal, step, &input)
        .unwrap();
    assert_eq!(findings.len(), 1);
    assert_eq!(findings[0].determinations.severity, Severity::High);
    assert_eq!(findings[0].determinations.confidence, Confidence::High);

    // The checkout step holds no expansion and yields nothing.
    let quiet = TemplateInjection
        .audit_step(&workflow, job, normal, &normal.steps[0], &input)
        .unwrap();
    assert!(quiet.is_empty());
}

#[test]
fn unpinned_uses_audits_symbolic_ref() {
    let input = sample_input();
    let workflow = sample_workflow();
    let job = &workflow.jobs[0];
    let normal = match job {
        Job::Normal(n) => n,
        Job::Reusable(_) => panic!("expected the normal job"),
    };
    let findings = UnpinnedUses
        .audit_step(&workflow, job, &normal.steps[0], &input)
        .unwrap();
    assert_eq!(findings.len(), 1);
    assert_eq!(findings[0].determinations.severity, Severity::Low);
    assert_eq!(findings[0].determinations.persona, Persona::Pedantic);
}

#[test]
fn trusted_publishing_predicates() {
    let rule = UseTrustedPublishing;

    let with_password = Env {
        entries: vec![("password".to_string(), EnvValue::Text("hunter2".to_string()))],
    };
    assert!(rule.pypi_publish_uses_manual_credentials(&with_password));

    // A password aimed at a third-party index is not flagged.
    let third_party = Env {
        entries: vec![
            ("password".to_string(), EnvValue::Text("hunter2".to_string())),
            (
                "repository-url".to_string(),
                EnvValue::Text("https://example.com/simple/".to_string()),
            ),
        ],
    };
    assert!(!rule.pypi_publish_uses_manual_credentials(&third_party));

    let opted_in = Env {
        entries: vec![(
            "setup-trusted-publisher".to_string(),
            EnvValue::Text("true".to_string()),
        )],
    };
    assert!(!rule.release_gem_uses_manual_credentials(&opted_in));
    let opted_out = Env {
        entries: vec![(
            "setup-trusted-publisher".to_string(),
            EnvValue::Text("false".to_string()),
        )],
    };
    assert!(rule.release_gem_uses_manual_credentials(&opted_out));

    let token = Env {
        entries: vec![("api-token".to_string(), EnvValue::Text("t".to_string()))],
    };
    assert!(rule.rubygems_credential_uses_manual_credentials(&token));
}

fn branch(name: &str, sha: &str) -> Branch {
    Branch { name: name.to_string(), commit: RefCommit { sha: sha.to_string() } }
}

fn tag(name: &str, sha: &str) -> Tag {
    Tag { name: name.to_string(), commit: RefCommit { sha: sha.to_string() } }
}

#[test]
fn impostor_commit_verdicts() {
    let rule = ImpostorCommit;
    let sha = "8f4b7f84864484a7bf31766abe9204da3cbe65b3";
    let pinned = Uses::new("actions", "checkout", None, Some(sha));

    // The commit is a listed branch tip: not an impostor.
    let branches = vec![branch("main", sha)];
    assert!(!rule.impostor(&pinned, &branches, &vec![], &vec![]));

    // A named ref contains the commit: not an impostor.
    let branches = vec![branch("main", "0000000000000000000000000000000000000000")];
    let comparisons = vec![Some(Comparison { status: ComparisonStatus::Behind })];
    assert!(!rule.impostor(&pinned, &branches, &vec![], &comparisons));

    // Nothing vouches for the commit: an impostor.
    let comparisons = vec![Some(Comparison { status: ComparisonStatus::Diverged }), None];
    assert!(rule.impostor(&pinned, &branches, &vec![], &comparisons));

    // A symbolic ref has nothing to impersonate.
    let symbolic = Uses::new("actions", "checkout", None, Some("v4"));
    assert!(!rule.impostor(&symbolic, &branches, &vec![], &comparisons));

    assert!(rule.named_ref_contains_commit(&Some(Comparison {
        status: ComparisonStatus::Identical
    })));
    assert!(!rule.named_ref_contains_commit(&Some(Comparison {
        status: ComparisonStatus::Ahead
    })));
    assert!(!rule.named_ref_contains_commit(&None));
}

#[test]
fn ref_confusion_needs_both_namespaces() {
    let rule = RefConfusion;
    let uses = Uses::new("actions", "checkout", None, Some("v4"));
    let sha = "8f4b7f84864484a7bf31766abe9204da3cbe65b3";

    let branches = vec![branch("v4", sha)];
    let tags = vec![tag("v4", sha)];
    assert!(rule.confusable(&uses, &branches, &tags));
    assert!(!rule.confusable(&uses, &branches, &vec![]));
    assert!(!rule.confusable(&uses, &vec![], &tags));

    // A commit-pinned reference is never confusable.
    let pinned = Uses::new("actions", "checkout", None, Some(sha));
    assert!(!rule.confusable(&pinned, &branches, &tags));
}

#[test]
fn marker_extraction_and_splitting() {
    let text = "echo ${{ github.ref }} and ${{ matrix.os }}";
    let found = extract_expressions(text);
    assert_eq!(found.len(), 2);
    assert_eq!(found[0].0.as_bare(), "github.ref");
    assert_eq!(found[1].0.as_bare(), "matrix.os");
    assert_eq!(&text[found[0].1..found[0].2], "${{ github.ref }}");

    assert!(ExplicitExpr::from_curly("${{ github.ref }}").is_some());
    assert!(ExplicitExpr::from_curly("github.ref").is_none());
    assert!(ExplicitExpr::from_curly("  ${{ x }}  ").is_some());

    let patterns = split_patterns("foo\n  bar \n\n./baz");
    assert_eq!(
        patterns,
        vec!["foo".to_string(), "bar".to_string(), "./baz".to_string()]
    );
}

#[test]
fn dangerous_upload_patterns() {
    let rule = zizmor::audit::artipacked::Artipacked;
    let patterns = rule.dangerous_artifact_patterns("./\nsome/dir\n${{ github.workspace }}");
    assert_eq!(
        patterns,
        vec!["./".to_string(), "${{ github.workspace }}".to_string()]
    );
    assert!(rule.dangerous_artifact_patterns("dist/").is_empty());
}

#[test]
fn provenance_rules_build_findings() {
    let input = sample_input();
    let workflow = sample_workflow();
    let job = &workflow.jobs[0];
    let normal = match job {
        Job::Normal(n) => n,
        Job::Reusable(_) => panic!("expected the normal job"),
    };
    let step = &normal.steps[0];
    let uses = Uses::new("actions", "checkout", None, Some("v4"));
    let sha = "8f4b7f84864484a7bf31766abe9204da3cbe65b3";

    // The symbolic ref exists in both namespaces: one finding at the clause.
    let branches = vec![branch("v4", sha)];
    let tags = vec![tag("v4", sha)];
    let findings = RefConfusion
        .audit_step(&workflow, job, step, &uses, &branches, &tags, &input)
        .unwrap();
    assert_eq!(findings.len(), 1);
    assert_eq!(findings[0].ident, "ref-confusion");
    assert!(findings[0].locations[0].symbolic.primary);
    assert!(findings[0].locations[0].concrete.feature.contains("actions/checkout@v4"));

    // A symbolic ref has nothing to impersonate: no impostor finding.
    let quiet = ImpostorCommit
        .audit_step(&workflow, job, step, &uses, &branches, &tags, &vec![], &input)
        .unwrap();
    assert!(quiet.is_empty());

    // A pinned commit nothing vouches for: one finding at the step.
    let pinned = Uses::new("actions", "checkout", None, Some(sha));
    let other = "0000000000000000000000000000000000000000";
    let strange = vec![branch("main", other)];
    let comparisons = vec![Some(Comparison { status: ComparisonStatus::Diverged })];
    let flagged = ImpostorCommit
        .audit_step(&workflow, job, step, &pinned, &strange, &vec![], &comparisons, &input)
        .unwrap();
    assert_eq!(flagged.len(), 1);
    assert_eq!(flagged[0].ident, "impostor-commit");
    assert_eq!(flagged[0].determinations.severity, Severity::High);
}
