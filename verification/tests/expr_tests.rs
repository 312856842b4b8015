//! Tests for the expression parser and the classifier folds.

use zizmor::audit::bypassable_contains_conditions::BypassableContainsConditions;
use zizmor::audit::overprovisioned_secrets::OverprovisionedSecrets;
use zizmor::audit::template_injection::TemplateInjection;
use zizmor::audit::unredacted_secrets::UnredactedSecrets;
use zizmor::expr::Expr;
use zizmor::finding::Severity;

#[test]
fn test_expr_is_safe() {
    let cases = &[
        // Literals are always safe.
        ("true", true),
        ("false", true),
        ("1.0", true),
        ("null", true),
        ("'some string'", true),
        // negation is always safe.
        ("!true", true),
        ("!some.context", true),
        // == / != are always safe, even if their hands are not.
        ("true == true", true),
        ("'true' == true", true),
        ("some.context == true", true),
        ("contains(some.context, 'foo') != true", true),
        // || is safe if both hands are safe.
        ("true || true", true),
        ("some.context || true", false),
        ("true || some.context", false),
        // && is true if the RHS is safe.
        ("true && true", true),
        ("some.context && true", true),
        ("true && other.context", false),
        ("some.context && other.context", false),
        // Index ops and function calls are unsafe.
        ("some.context[0]", false),
        ("some.context[*]", false),
        ("someFunction()", false),
        ("fromJSON(some.context)", false),
        ("toJSON(fromJSON(some.context))", false),
        // Context accesses are unsafe.
        ("some.context", false),
        ("some.context.*.something", false),
        // More complicated cases:
        ("some.condition && '--some-arg' || ''", true),
        ("some.condition && some.context || ''", false),
        ("some.condition && '--some-arg' || some.context", false),
        (
            "(github.actor != 'github-actions[bot]' && github.actor) || 'BrewTestBot'",
            false,
        ),
    ];

    for (case, safe) in cases {
        let expr = Expr::parse(case).unwrap();
        assert_eq!(TemplateInjection::expr_is_safe(&expr), *safe, "{expr:#?}");
    }
}

#[test]
fn test_bot_condition() {
    for (cond, severity) in &[
        // Vulnerable conditions
        (
            "contains('refs/heads/main refs/heads/develop', github.ref)",
            vec![(Severity::High, String::from("github.ref"))],
        ),
        (
            "false || contains('main,develop', github.head_ref)",
            vec![(Severity::High, String::from("github.head_ref"))],
        ),
        (
            "!contains('main|develop', github.base_ref)",
            vec![(Severity::High, String::from("github.base_ref"))],
        ),
        (
            "contains(fromJSON('[true]'), contains('refs/heads/main refs/heads/develop', env.GITHUB_REF))",
            vec![(Severity::High, String::from("env.GITHUB_REF"))],
        ),
        (
            "contains('push pull_request', github.event_name)",
            vec![(Severity::Informational, String::from("github.event_name"))],
        ),
        // These are okay.
        (
            "github.ref == 'refs/heads/main' || github.ref == 'refs/heads/develop'",
            vec![],
        ),
        (
            "contains(fromJSON('[\"refs/heads/main\", \"refs/heads/develop\"]'), github.ref)",
            vec![],
        ),
    ] {
        assert_eq!(
            BypassableContainsConditions::insecure_contains(cond).as_slice(),
            severity.as_slice()
        );
    }
}

#[test]
fn test_secrets_expansions() {
    for (expr, count) in &[
        ("secrets", 0),
        ("toJSON(secrets.foo)", 0),
        ("toJSON(secrets)", 1),
        ("false || toJSON(secrets)", 1),
        ("toJSON(secrets) || toJSON(secrets)", 2),
        ("format('{0}', toJSON(secrets))", 1),
    ] {
        let expr = Expr::parse(expr).unwrap();
        assert_eq!(OverprovisionedSecrets::secrets_expansions(&expr).len(), *count);
    }
}

#[test]
fn test_secret_leakages() {
    for (expr, count) in &[
        ("secrets", 0),
        ("secrets.foo", 0),
        ("fromJSON(notsecrets)", 0),
        ("fromJSON(notsecrets.secrets)", 0),
        ("fromJSON(secrets)", 1),
        ("fromjson(SECRETS)", 1),
        ("fromJSON(secrets.foo)", 1),
        ("fromJSON(secrets.foo).bar", 1),
        ("fromJSON(secrets.foo).bar.baz", 1),
        ("fromJSON(secrets.foo) && fromJSON(secrets.bar)", 2),
    ] {
        let expr = Expr::parse(expr).unwrap();
        assert_eq!(UnredactedSecrets::secret_leakages(&expr).len(), *count);
    }
}

#[test]
fn parse_rejects_malformed_text() {
    for bad in &[
        "",
        "   ",
        "&&",
        "a &&",
        "(a",
        "'unterminated",
        "foo bar",
        "a ==",
        "1 +",
        "foo(",
        "foo(a,",
        "foo.bar[",
        "foo.",
        "a || || b",
    ] {
        assert!(Expr::parse(bad).is_err(), "{bad} should not parse");
    }
}

#[test]
fn parse_accepts_grammar_and_reparses() {
    // Valid texts parse, and parsing is a pure function of the text:
    // parsing the same text twice yields structurally equal trees.
    let good = &[
        "true",
        "!x.y",
        "fromJSON(secrets.foo).bar",
        "a.b == 'c' && d.e != 1",
        "contains('x,y', github.ref) || startsWith(github.head_ref, 'releases/')",
        "matrix.os[0].name",
        "format('{0}-{1}', github.sha, github.run_id)",
        "github.event.pull_request.labels.*.name",
    ];
    for case in good {
        let one = Expr::parse(case).unwrap();
        let two = Expr::parse(case).unwrap();
        assert_eq!(format!("{one:?}"), format!("{two:?}"));
    }
}

#[test]
fn parse_round_trips_through_printed_form() {
    // For texts within the grammar, the printed form of the parse re-parses
    // to a structurally equivalent tree: printing is a fixpoint.
    let cases = &[
        "true",
        "false",
        "1.0",
        "null",
        "'some string'",
        "'it''s quoted'",
        "!some.context",
        "some.context && other.context || 'x'",
        "contains('a,b', github.ref) != true",
        "fromJSON(secrets.foo).bar",
        "matrix.os[0].name",
        "github.event.pull_request.labels.*.name",
        "format('{0}', toJSON(secrets))",
        "a.b == 'c' && d.e != 1",
    ];
    for case in cases {
        let tree = Expr::parse(case).unwrap();
        let printed = tree.unparse();
        let reparsed = Expr::parse(&printed)
            .unwrap_or_else(|_| panic!("printed form of {case} should parse: {printed}"));
        assert_eq!(
            printed,
            reparsed.unparse(),
            "round trip through {case} diverged"
        );
        assert_eq!(format!("{tree:?}"), format!("{reparsed:?}"), "{case}");
    }
}

#[test]
fn contexts_are_collected_once_per_occurrence() {
    // A context nested under calls, indices and operators appears exactly
    // once per syntactic occurrence, in order.
    let expr = Expr::parse("format(github.ref, toJSON(github.ref)) && !matrix.os").unwrap();
    let contexts = expr.contexts();
    assert_eq!(
        contexts,
        vec![
            "github.ref".to_string(),
            "github.ref".to_string(),
            "matrix.os".to_string()
        ]
    );

    let deep = Expr::parse("a(b(c(inputs.name[0])))").unwrap();
    assert_eq!(deep.contexts(), vec!["inputs.name[0]".to_string()]);
}

#[test]
fn membership_bypass_scenario() {
    // The end-to-end shape: a membership test of a literal list against an
    // attacker-controllable ref is unsafe, draws exactly from `github.ref`,
    // and the bypassable-contains pattern flags it at high severity.
    let text = "contains('refs/heads/main refs/heads/develop', github.ref)";
    let expr = Expr::parse(text).unwrap();
    assert!(!TemplateInjection::expr_is_safe(&expr));
    assert_eq!(expr.contexts(), vec!["github.ref".to_string()]);
    let flagged = BypassableContainsConditions::insecure_contains(text);
    assert_eq!(flagged.len(), 1);
    assert_eq!(flagged[0].0, Severity::High);
    assert_eq!(flagged[0].1, "github.ref".to_string());
}

#[test]
fn secrets_scenarios() {
    // Decoding a secret bypasses redaction: exactly one match.
    let decode = Expr::parse("fromJSON(secrets.foo).bar").unwrap();
    assert_eq!(UnredactedSecrets::secret_leakages(&decode).len(), 1);

    // Expanding the whole secrets context: one match; a single secret: none.
    let whole = Expr::parse("toJSON(secrets)").unwrap();
    assert_eq!(OverprovisionedSecrets::secrets_expansions(&whole).len(), 1);
    let single = Expr::parse("toJSON(secrets.foo)").unwrap();
    assert_eq!(OverprovisionedSecrets::secrets_expansions(&single).len(), 0);
}

#[test]
fn classification_survives_reparse() {
    // Classification is a pure function of the parsed structure: printing a
    // condition's tree and classifying the printed text gives the same
    // result.
    let cases = &[
        "contains('refs/heads/main refs/heads/develop', github.ref)",
        "false || contains('main,develop', github.head_ref)",
        "contains('push pull_request', github.event_name)",
        "github.ref == 'refs/heads/main' || github.ref == 'refs/heads/develop'",
    ];
    for case in cases {
        let printed = Expr::parse(case).unwrap().unparse();
        assert_eq!(
            BypassableContainsConditions::insecure_contains(case),
            BypassableContainsConditions::insecure_contains(&printed),
            "{case} vs {printed}"
        );
    }
}
