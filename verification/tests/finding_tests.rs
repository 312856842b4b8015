//! Tests for comments and suppression, location resolution, the finding
//! builder, and the aggregation pipeline.

use zizmor::document::Input;
use zizmor::finding::{
    BuildError, Comment, Confidence, Determinations, Finding, FindingBuilder, Persona,
    RouteComponent, Severity,
};
use zizmor::locate::Locator;
use zizmor::registry::FindingRegistry;

#[test]
fn test_comment_ignores() {
    let cases = &[
        // Trivial cases.
        ("# zizmor: ignore[foo]", "foo", true),
        ("# zizmor: ignore[foo,bar]", "foo", true),
        // Dashes are OK.
        ("# zizmor: ignore[foo,bar,foo-bar]", "foo-bar", true),
        // Spaces are OK.
        ("# zizmor: ignore[foo, bar,   foo-bar]", "foo-bar", true),
        // Extra commas and duplicates are nonsense but OK.
        ("# zizmor: ignore[foo,foo,,foo,,,,foo,]", "foo", true),
        // Valid ignore, but not a match.
        ("# zizmor: ignore[foo,bar]", "baz", false),
        // Invalid ignore: empty rule list.
        ("# zizmor: ignore[]", "", false),
        ("# zizmor: ignore[]", "foo", false),
        // Invalid ignore: no commas.
        ("# zizmor: ignore[foo bar]", "foo", false),
        // Invalid ignore: missing opening and/or closing [].
        ("# zizmor: ignore[foo", "foo", false),
        ("# zizmor: ignore foo", "foo", false),
        ("# zizmor: ignore foo]", "foo", false),
        // Invalid ignore: space after # and : is mandatory and fixed.
        ("# zizmor:ignore[foo]", "foo", false),
        ("#zizmor: ignore[foo]", "foo", false),
        ("#  zizmor: ignore[foo]", "foo", false),
        ("#  zizmor:  ignore[foo]", "foo", false),
    ];

    for (comment, rule, ignores) in cases {
        assert_eq!(
            Comment(comment.to_string()).ignores(rule),
            *ignores,
            "{comment} does not ignore {rule}"
        )
    }
}

const SAMPLE: &str = "\
name: sample
jobs:
  build:
    runs-on: ubuntu-latest # zizmor: ignore[fake-rule]
    steps:
      - run: echo hello
";

fn sample_input() -> Input {
    Input::new("file://sample.yml".to_string(), SAMPLE.to_string()).unwrap()
}

#[test]
fn resolution_is_deterministic() {
    let input = sample_input();
    let locator = Locator::new();
    let mut location = input.location();
    let keys = vec![
        RouteComponent::Key("jobs".to_string()),
        RouteComponent::Key("build".to_string()),
        RouteComponent::Key("runs-on".to_string()),
    ];
    location = location.with_keys(&keys);

    let (first, first_parent) = locator.concretize(&input, &location).unwrap();
    let (second, second_parent) = locator.concretize(&input, &location).unwrap();
    assert_eq!(first.location, second.location);
    assert_eq!(first.feature, second.feature);
    assert_eq!(first.comments, second.comments);
    assert_eq!(first_parent.location, second_parent.location);
    assert!(first.feature.contains("runs-on"));
}

#[test]
fn unresolvable_route_is_an_error() {
    let input = sample_input();
    let locator = Locator::new();
    let mut location = input.location();
    let keys = vec![
        RouteComponent::Key("jobs".to_string()),
        RouteComponent::Key("no-such-job".to_string()),
    ];
    location = location.with_keys(&keys);
    assert!(locator.concretize(&input, &location).is_err());
}

fn suppressed_location(input: &Input) -> zizmor::finding::SymbolicLocation {
    let keys = vec![
        RouteComponent::Key("jobs".to_string()),
        RouteComponent::Key("build".to_string()),
        RouteComponent::Key("runs-on".to_string()),
    ];
    input.location().with_keys(&keys).primary()
}

#[test]
fn suppression_marks_matching_rule_only() {
    let input = sample_input();

    // A finding for the suppressed rule is marked ignored...
    let finding = FindingBuilder::new("fake-rule", "a test rule", "https://example.invalid")
        .severity(Severity::Low)
        .confidence(Confidence::High)
        .add_location(suppressed_location(&input))
        .build(&input)
        .unwrap();
    assert!(finding.ignored);

    // ...while one for any other rule is not.
    let finding = FindingBuilder::new("other-rule", "a test rule", "https://example.invalid")
        .severity(Severity::Low)
        .confidence(Confidence::High)
        .add_location(suppressed_location(&input))
        .build(&input)
        .unwrap();
    assert!(!finding.ignored);
}

#[test]
fn build_without_primary_location_fails() {
    let input = sample_input();
    let keys = vec![RouteComponent::Key("jobs".to_string())];
    let location = input.location().with_keys(&keys);
    let result = FindingBuilder::new("some-rule", "a test rule", "https://example.invalid")
        .add_location(location)
        .build(&input);
    assert!(matches!(result, Err(BuildError::NoPrimaryLocation)));
}

fn plain_finding(ident: &str, severity: Severity, persona: Persona) -> Finding {
    Finding {
        ident: ident.to_string(),
        desc: "a test finding".to_string(),
        url: "https://example.invalid".to_string(),
        determinations: Determinations { confidence: Confidence::High, severity, persona },
        locations: vec![],
        ignored: false,
    }
}

#[test]
fn persona_ordering_governs_suppression() {
    // A regular-persona run suppresses pedantic and auditor findings.
    let mut registry = FindingRegistry::new(Persona::Regular, None, None);
    registry.extend(
        vec![
            plain_finding("a", Severity::High, Persona::Regular),
            plain_finding("b", Severity::High, Persona::Pedantic),
            plain_finding("c", Severity::High, Persona::Auditor),
        ],
        &vec![false, false, false],
    );
    assert_eq!(registry.findings().len(), 1);
    assert_eq!(registry.suppressed().len(), 2);
    assert_eq!(registry.findings()[0].ident, "a");

    // An auditor run surfaces findings of all three personas.
    let mut registry = FindingRegistry::new(Persona::Auditor, None, None);
    registry.extend(
        vec![
            plain_finding("a", Severity::High, Persona::Regular),
            plain_finding("b", Severity::High, Persona::Pedantic),
            plain_finding("c", Severity::High, Persona::Auditor),
        ],
        &vec![false, false, false],
    );
    assert_eq!(registry.findings().len(), 3);
    assert_eq!(registry.suppressed().len(), 0);
}

#[test]
fn filters_and_policy_ignore_findings() {
    let mut registry =
        FindingRegistry::new(Persona::Regular, Some(Severity::Medium), Some(Confidence::Low));
    let mut low = plain_finding("low", Severity::Low, Persona::Regular);
    low.ignored = false;
    let mut inline = plain_finding("inline", Severity::High, Persona::Regular);
    inline.ignored = true;
    let reported = plain_finding("reported", Severity::High, Persona::Regular);
    let policy = plain_finding("policy", Severity::High, Persona::Regular);
    registry.extend(vec![low, inline, reported, policy], &vec![false, false, false, true]);
    assert_eq!(registry.findings().len(), 1);
    assert_eq!(registry.findings()[0].ident, "reported");
    assert_eq!(registry.ignored().len(), 3);
    assert_eq!(registry.suppressed().len(), 0);
    assert_eq!(registry.count(), 4);
}

#[test]
fn outcome_tracks_worst_reported_severity() {
    let mut registry = FindingRegistry::new(Persona::Regular, None, None);
    assert_eq!(registry.outcome_code(), 0);
    registry.extend(
        vec![
            plain_finding("a", Severity::Low, Persona::Regular),
            plain_finding("b", Severity::High, Persona::Regular),
            plain_finding("c", Severity::Medium, Persona::Regular),
            // Suppressed findings do not move the outcome.
            plain_finding("d", Severity::High, Persona::Auditor),
        ],
        &vec![false, false, false, false],
    );
    assert_eq!(registry.outcome_code(), 14);

    let mut quiet = FindingRegistry::new(Persona::Regular, None, None);
    quiet.extend(vec![plain_finding("a", Severity::Informational, Persona::Regular)], &vec![false]);
    assert_eq!(quiet.outcome_code(), 11);
}

#[test]
fn severity_renders_as_workflow_command() {
    assert_eq!(Severity::Unknown.as_github_command(), "notice");
    assert_eq!(Severity::Informational.as_github_command(), "notice");
    assert_eq!(Severity::Low.as_github_command(), "warning");
    assert_eq!(Severity::Medium.as_github_command(), "warning");
    assert_eq!(Severity::High.as_github_command(), "error");
}

#[test]
fn resolution_handles_multibyte_text() {
    // Byte offsets from the document convert to character offsets, so text
    // outside the ASCII range before the target does not shift the span.
    let source = "\
name: s\u{e4}mple \u{fc}n\u{ef}c\u{f6}de \u{2014} caf\u{e9}
jobs:
  build:
    runs-on: ubuntu-latest # zizmor: ignore[fake-rule]
    steps:
      - run: echo hello
";
    let input = Input::new("file://unicode.yml".to_string(), source.to_string()).unwrap();
    let locator = Locator::new();
    let keys = vec![
        RouteComponent::Key("jobs".to_string()),
        RouteComponent::Key("build".to_string()),
        RouteComponent::Key("runs-on".to_string()),
    ];
    let location = input.location().with_keys(&keys);
    let (feature, _) = locator.concretize(&input, &location).unwrap();
    assert!(feature.feature.starts_with("runs-on: ubuntu-latest"), "{}", feature.feature);
    assert_eq!(feature.comments.len(), 1);
    assert!(feature.comments[0].0.contains("fake-rule"));

    let finding = FindingBuilder::new("fake-rule", "a test rule", "https://example.invalid")
        .severity(Severity::Low)
        .confidence(Confidence::High)
        .add_location(input.location().with_keys(&keys).primary())
        .build(&input)
        .unwrap();
    assert!(finding.ignored);
}
