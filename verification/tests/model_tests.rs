//! Tests for the data model: `uses:` references, input keys, pinning
//! evaluation, coordinates, environments and matrices.

use zizmor::audit::secret_without_env::SecretWithoutEnv;
use zizmor::audit::secrets_outside_environment::SecretsOutsideEnvironment;
use zizmor::audit::unpinned_uses::{DockerUses, UnpinnedUses, UsesClause};
use zizmor::finding::{Persona, Severity};
use zizmor::models::coordinate::{Control, ControlFieldType, Toggle, Usage, UsesCoordinate};
use zizmor::models::{Env, EnvValue, Matrix, MatrixValue, Step, StepBody, Uses};
use zizmor::registry::{CollectionMode, InputKey};

#[test]
fn uses_from_step() {
    let vectors = [
        (
            // Valid: fully pinned.
            "actions/checkout@8f4b7f84864484a7bf31766abe9204da3cbe65b3",
            Some(Uses::new(
                "actions",
                "checkout",
                None,
                Some("8f4b7f84864484a7bf31766abe9204da3cbe65b3"),
            )),
        ),
        (
            // Valid: fully pinned, subpath
            "actions/aws/ec2@8f4b7f84864484a7bf31766abe9204da3cbe65b3",
            Some(Uses::new(
                "actions",
                "aws",
                Some("ec2"),
                Some("8f4b7f84864484a7bf31766abe9204da3cbe65b3"),
            )),
        ),
        (
            // Valid: fully pinned, complex subpath
            "example/foo/bar/baz/quux@8f4b7f84864484a7bf31766abe9204da3cbe65b3",
            Some(Uses::new(
                "example",
                "foo",
                Some("bar/baz/quux"),
                Some("8f4b7f84864484a7bf31766abe9204da3cbe65b3"),
            )),
        ),
        (
            // Valid: pinned with branch/tag
            "actions/checkout@v4",
            Some(Uses::new("actions", "checkout", None, Some("v4"))),
        ),
        (
            "actions/checkout@abcd",
            Some(Uses::new("actions", "checkout", None, Some("abcd"))),
        ),
        (
            // Valid: unpinned
            "actions/checkout",
            Some(Uses::new("actions", "checkout", None, None)),
        ),
        // Invalid: missing user/repo
        ("checkout@8f4b7f84864484a7bf31766abe9204da3cbe65b3", None),
        // Invalid: local action refs not supported
        (
            "./.github/actions/hello-world-action@172239021f7ba04fe7327647b213799853a9eb89",
            None,
        ),
        // Invalid: Docker refs not supported
        ("docker://alpine:3.8", None),
    ];

    for (input, expected) in vectors {
        assert_eq!(Uses::from_step(input), expected);
    }
}

#[test]
fn uses_from_reusable() {
    let vectors = [
        // Valid, as expected.
        (
            "octo-org/this-repo/.github/workflows/workflow-1.yml@172239021f7ba04fe7327647b213799853a9eb89",
            Some(Uses::new(
                "octo-org",
                "this-repo",
                Some(".github/workflows/workflow-1.yml"),
                Some("172239021f7ba04fe7327647b213799853a9eb89"),
            )),
        ),
        (
            "octo-org/this-repo/.github/workflows/workflow-1.yml@notahash",
            Some(Uses::new(
                "octo-org",
                "this-repo",
                Some(".github/workflows/workflow-1.yml"),
                Some("notahash"),
            )),
        ),
        (
            "octo-org/this-repo/.github/workflows/workflow-1.yml@abcd",
            Some(Uses::new(
                "octo-org",
                "this-repo",
                Some(".github/workflows/workflow-1.yml"),
                Some("abcd"),
            )),
        ),
        // Invalid: no ref at all
        ("octo-org/this-repo/.github/workflows/workflow-1.yml", None),
        // Invalid: missing user/repo
        (
            "workflow-1.yml@172239021f7ba04fe7327647b213799853a9eb89",
            None,
        ),
        // Invalid: local reusable workflow refs not supported
        (
            "./.github/workflows/workflow-1.yml@172239021f7ba04fe7327647b213799853a9eb89",
            None,
        ),
    ];

    for (input, expected) in vectors {
        assert_eq!(Uses::from_reusable(input), expected);
    }
}

#[test]
fn uses_ref_is_commit() {
    assert!(
        Uses::from_step("actions/checkout@8f4b7f84864484a7bf31766abe9204da3cbe65b3")
            .unwrap()
            .ref_is_commit()
    );

    assert!(!Uses::from_step("actions/checkout@v4").unwrap().ref_is_commit());

    assert!(!Uses::from_step("actions/checkout@abcd").unwrap().ref_is_commit());
}

#[test]
fn test_input_key_display() {
    let local = InputKey::local("/foo/bar/baz.yml", None).unwrap();
    assert_eq!(local.to_string(), "file:///foo/bar/baz.yml");

    // No ref
    let slug = Uses::from_common("foo/bar").unwrap();
    let remote = InputKey::remote(&slug, ".github/workflows/baz.yml").unwrap();
    assert_eq!(
        remote.to_string(),
        "https://github.com/foo/bar/blob/HEAD/.github/workflows/baz.yml"
    );

    // With a git ref
    let slug = Uses::from_common("foo/bar@v1").unwrap();
    let remote = InputKey::remote(&slug, ".github/workflows/baz.yml").unwrap();
    assert_eq!(
        remote.to_string(),
        "https://github.com/foo/bar/blob/v1/.github/workflows/baz.yml"
    );
}

#[test]
fn test_input_key_local_path() {
    let local = InputKey::local("/foo/bar/baz.yml", None).unwrap();
    assert_eq!(local.best_effort_relative_path(), "/foo/bar/baz.yml");

    let local = InputKey::local("/foo/bar/baz.yml", Some("/foo")).unwrap();
    assert_eq!(local.best_effort_relative_path(), "bar/baz.yml");

    let local = InputKey::local("/foo/bar/baz.yml", Some("/foo/bar/")).unwrap();
    assert_eq!(local.best_effort_relative_path(), "baz.yml");

    let local = InputKey::local(
        "/home/runner/work/repo/repo/.github/workflows/baz.yml",
        Some("/home/runner/work/repo/repo"),
    )
    .unwrap();
    assert_eq!(local.best_effort_relative_path(), ".github/workflows/baz.yml");
}

#[test]
fn evaluate_pinning_severities() {
    let rule = UnpinnedUses;

    // Local references never need pinning.
    let local = UsesClause::Local("./local/action".to_string());
    assert!(rule.evaluate_pinning(&local).is_none());

    // An unpinned repository reference is a medium-severity finding.
    let unpinned = UsesClause::Repository(Uses::new("actions", "checkout", None, None));
    let (_, severity, persona) = rule.evaluate_pinning(&unpinned).unwrap();
    assert_eq!(severity, Severity::Medium);
    assert_eq!(persona, Persona::Regular);

    // A symbolic ref is a low-severity, pedantic-audience finding.
    let unhashed = UsesClause::Repository(Uses::new("actions", "checkout", None, Some("v4")));
    let (_, severity, persona) = rule.evaluate_pinning(&unhashed).unwrap();
    assert_eq!(severity, Severity::Low);
    assert_eq!(persona, Persona::Pedantic);

    // A hash-pinned reference passes.
    let pinned = UsesClause::Repository(Uses::new(
        "actions",
        "checkout",
        None,
        Some("8f4b7f84864484a7bf31766abe9204da3cbe65b3"),
    ));
    assert!(rule.evaluate_pinning(&pinned).is_none());

    // Container images: no tag or hash at all is unpinned; a tag alone is
    // unhashed; a digest passes.
    let bare = UsesClause::parse("docker://ubuntu").unwrap();
    let (_, severity, _) = rule.evaluate_pinning(&bare).unwrap();
    assert_eq!(severity, Severity::Medium);

    let tagged = UsesClause::parse("docker://alpine:3.8").unwrap();
    let (_, severity, _) = rule.evaluate_pinning(&tagged).unwrap();
    assert_eq!(severity, Severity::Low);
}

#[test]
fn docker_uses_parsing() {
    let parsed = UsesClause::parse("docker://ghcr.io/pypa/gh-action-pypi-publish").unwrap();
    match parsed {
        UsesClause::Docker(DockerUses { registry, image, tag, hash }) => {
            assert_eq!(registry, Some("ghcr.io".to_string()));
            assert_eq!(image, "pypa/gh-action-pypi-publish".to_string());
            assert_eq!(tag, None);
            assert_eq!(hash, None);
        }
        other => panic!("expected a docker reference, got {other:?}"),
    }

    let parsed = UsesClause::parse("docker://alpine:3.8").unwrap();
    match parsed {
        UsesClause::Docker(DockerUses { registry, image, tag, hash }) => {
            assert_eq!(registry, None);
            assert_eq!(image, "alpine".to_string());
            assert_eq!(tag, Some("3.8".to_string()));
            assert_eq!(hash, None);
        }
        other => panic!("expected a docker reference, got {other:?}"),
    }
}

#[test]
fn env_lookup_first_binding_wins() {
    let env = Env {
        entries: vec![
            ("A".to_string(), EnvValue::Text("one".to_string())),
            ("B".to_string(), EnvValue::Boolean(true)),
            ("A".to_string(), EnvValue::Text("two".to_string())),
        ],
    };
    match env.get("A").unwrap() {
        EnvValue::Text(v) => assert_eq!(v, "one"),
        other => panic!("unexpected value {other:?}"),
    }
    match env.get("B").unwrap() {
        EnvValue::Boolean(b) => assert!(*b),
        other => panic!("unexpected value {other:?}"),
    }
    assert!(env.get("C").is_none());
    assert!(env.contains_key("B"));
    assert!(!env.contains_key("missing"));
}

#[test]
fn matrix_static_detection() {
    let static_matrix = Matrix::new(vec![
        (
            "os".to_string(),
            MatrixValue::List(vec![
                MatrixValue::Text("ubuntu-latest".to_string()),
                MatrixValue::Text("macos-latest".to_string()),
            ]),
        ),
        ("jobs".to_string(), MatrixValue::Number("4".to_string())),
    ]);
    assert!(static_matrix.is_static());

    let dynamic_matrix = Matrix::new(vec![(
        "os".to_string(),
        MatrixValue::List(vec![MatrixValue::Text(
            "${{ fromJSON(needs.setup.outputs.matrix) }}".to_string(),
        )]),
    )]);
    assert!(!dynamic_matrix.is_static());
}

#[test]
fn coordinate_usage_semantics() {
    let coordinate = UsesCoordinate::Configurable {
        uses: Uses::new("actions", "setup-python", None, None),
        control: Control::new(Toggle::OptIn, "cache", ControlFieldType::FreeString),
        enabled_by_default: false,
    };

    let step_with_cache = Step::new(
        0,
        None,
        None,
        None,
        StepBody::Uses {
            uses: "actions/setup-python@v5".to_string(),
            with: Env {
                entries: vec![("cache".to_string(), EnvValue::Text("pip".to_string()))],
            },
        },
    );
    assert_eq!(coordinate.usage(&step_with_cache), Some(Usage::DirectOptIn));

    let step_without_cache = Step::new(
        0,
        None,
        None,
        None,
        StepBody::Uses {
            uses: "actions/setup-python@v5".to_string(),
            with: Env { entries: vec![] },
        },
    );
    assert_eq!(coordinate.usage(&step_without_cache), None);

    let step_with_expr = Step::new(
        0,
        None,
        None,
        None,
        StepBody::Uses {
            uses: "actions/setup-python@v5".to_string(),
            with: Env {
                entries: vec![(
                    "cache".to_string(),
                    EnvValue::Text("${{ matrix.cache }}".to_string()),
                )],
            },
        },
    );
    assert_eq!(coordinate.usage(&step_with_expr), Some(Usage::ConditionalOptIn));

    let always = UsesCoordinate::NotConfigurable(Uses::new("actions", "cache", None, None));
    let step_cache = Step::new(
        0,
        None,
        None,
        None,
        StepBody::Uses {
            uses: "actions/cache@v4".to_string(),
            with: Env { entries: vec![] },
        },
    );
    assert_eq!(always.usage(&step_cache), Some(Usage::Always));

    let unrelated = Step::new(
        0,
        None,
        None,
        None,
        StepBody::Uses {
            uses: "actions/checkout@v4".to_string(),
            with: Env { entries: vec![] },
        },
    );
    assert_eq!(always.usage(&unrelated), None);
}

#[test]
fn collection_mode_switches() {
    assert!(!CollectionMode::All.respects_gitignore());
    assert!(CollectionMode::Default.respects_gitignore());
    assert!(CollectionMode::WorkflowsOnly.workflows());
    assert!(!CollectionMode::WorkflowsOnly.actions());
    assert!(CollectionMode::ActionsOnly.actions());
    assert!(!CollectionMode::ActionsOnly.workflows());
    assert!(CollectionMode::Default.workflows() && CollectionMode::Default.actions());
}

#[test]
fn input_key_filename_component() {
    let local = InputKey::local("/foo/bar/baz.yml", None).unwrap();
    assert_eq!(local.filename(), "baz.yml");
    assert!(InputKey::local("/foo/bar/", None).is_ok());
    assert!(InputKey::local("", None).is_err());
    assert!(InputKey::local("/foo/..", None).is_err());
}

#[test]
fn secrets_mention_detection() {
    assert!(SecretWithoutEnv::check_secrets_access("${{ secrets.TOKEN }}"));
    assert!(SecretsOutsideEnvironment::check_secrets_access("${{ secrets.TOKEN }}"));
    assert!(!SecretWithoutEnv::check_secrets_access("${{ github.ref }}"));
    assert!(!SecretsOutsideEnvironment::check_secrets_access("plain value"));
}

#[test]
fn uses_template_matching() {
    let uses = Uses::new("Actions", "Checkout", None, Some("v4"));
    let template = Uses::new("actions", "checkout", None, None);
    assert!(uses.matches_template(&template));

    let with_subpath = Uses::new("github", "codeql-action", Some("upload-sarif"), None);
    let loose = Uses::new("github", "codeql-action", None, None);
    let exact = Uses::new("github", "codeql-action", Some("upload-sarif"), None);
    let wrong = Uses::new("github", "codeql-action", Some("init"), None);
    assert!(with_subpath.matches_template(&loose));
    assert!(with_subpath.matches_template(&exact));
    assert!(!with_subpath.matches_template(&wrong));
}
