use chimera::job::action::metadata::metadata_file;
use chimera::job::action::{
    extra_step_source, parse_uses, run_action_step, start_action, ActionStart,
};
use chimera::job::action::resolve::{resolve_action, ActionSource};
use chimera::job::schema::{Step, StepReference, StepReferenceKind};
use chimera::str_map::StrMap;

fn make_action_step(name: &str, kind: StepReferenceKind) -> Step {
    Step {
        id: "1".into(),
        display_name: name.into(),
        reference: StepReference {
            name: name.into(),
            kind,
            ..Default::default()
        },
        inputs: StrMap::new(),
        condition: None,
        timeout_in_minutes: None,
        continue_on_error: false,
        order: 1,
        environment: None,
        context_name: None,
    }
}

#[test]
fn resolve_remote_repository() {
    let mut step = make_action_step("actions/checkout", StepReferenceKind::Repository);
    step.reference.git_ref = Some("v4".into());

    let source = resolve_action(&step).unwrap();
    match source {
        ActionSource::Remote {
            owner,
            repo,
            git_ref,
            path,
        } => {
            assert_eq!(owner, "actions");
            assert_eq!(repo, "checkout");
            assert_eq!(git_ref, "v4");
            assert!(path.is_none());
        }
        _ => panic!("expected Remote"),
    }
}

#[test]
fn resolve_remote_with_path() {
    let mut step = make_action_step("actions/aws", StepReferenceKind::Repository);
    step.reference.git_ref = Some("v1".into());
    step.reference.path = Some("configure-credentials".into());

    let source = resolve_action(&step).unwrap();
    match source {
        ActionSource::Remote { path, .. } => {
            assert_eq!(path.as_deref(), Some("configure-credentials"));
        }
        _ => panic!("expected Remote"),
    }
}

#[test]
fn resolve_local_self_repository() {
    let mut step = make_action_step(".github/actions/my-action", StepReferenceKind::Repository);
    step.reference.repository_type = Some("self".into());
    step.reference.path = Some(".github/actions/my-action".into());

    let source = resolve_action(&step).unwrap();
    match source {
        ActionSource::Local { path } => {
            assert_eq!(path, ".github/actions/my-action");
        }
        _ => panic!("expected Local"),
    }
}

#[test]
fn resolve_docker_container_registry() {
    let mut step = make_action_step("docker://node:18", StepReferenceKind::ContainerRegistry);
    step.reference.image = Some("node:18".into());

    let source = resolve_action(&step).unwrap();
    match source {
        ActionSource::Docker { image } => {
            assert_eq!(image, "node:18");
        }
        _ => panic!("expected Docker"),
    }
}

#[test]
fn resolve_fallback_name_parsing() {
    let step = make_action_step("actions/checkout@v4", StepReferenceKind::default());

    let source = resolve_action(&step).unwrap();
    match source {
        ActionSource::Remote {
            owner,
            repo,
            git_ref,
            path,
        } => {
            assert_eq!(owner, "actions");
            assert_eq!(repo, "checkout");
            assert_eq!(git_ref, "v4");
            assert!(path.is_none());
        }
        _ => panic!("expected Remote"),
    }
}

#[test]
fn resolve_fallback_with_subpath() {
    let step = make_action_step(
        "actions/aws/configure-credentials@v1",
        StepReferenceKind::default(),
    );

    let source = resolve_action(&step).unwrap();
    match source {
        ActionSource::Remote {
            owner,
            repo,
            git_ref,
            path,
        } => {
            assert_eq!(owner, "actions");
            assert_eq!(repo, "aws");
            assert_eq!(git_ref, "v1");
            assert_eq!(path.as_deref(), Some("configure-credentials"));
        }
        _ => panic!("expected Remote"),
    }
}

#[test]
fn resolve_errors_say_what_is_missing() {
    let why = |step: &Step| resolve_action(step).unwrap_err().message();
    let mut step = make_action_step("x", StepReferenceKind::Repository);
    assert_eq!(why(&step), "remote action reference missing ref");
    step.reference.git_ref = Some("v1".into());
    assert_eq!(why(&step), "invalid action name 'x', expected owner/repo");
    step.reference.repository_type = Some("self".into());
    assert_eq!(why(&step), "local action reference missing path");

    let step = make_action_step("x", StepReferenceKind::ContainerRegistry);
    assert_eq!(why(&step), "container action reference missing image");

    let step = make_action_step("owner/repo", StepReferenceKind::default());
    assert_eq!(why(&step), "action name 'owner/repo' missing @ref");
    let step = make_action_step("repo@v1", StepReferenceKind::default());
    assert_eq!(
        why(&step),
        "invalid action name 'repo@v1', expected owner/repo[@ref]"
    );
}

#[test]
fn parse_uses_forms() {
    match parse_uses("actions/cache/save@v3").unwrap() {
        ActionSource::Remote {
            owner,
            repo,
            git_ref,
            path,
        } => {
            assert_eq!(owner, "actions");
            assert_eq!(repo, "cache");
            assert_eq!(git_ref, "v3");
            assert_eq!(path.as_deref(), Some("save"));
        }
        _ => panic!("expected Remote"),
    }
    match parse_uses("./local/action").unwrap() {
        ActionSource::Local { path } => assert_eq!(path, "./local/action"),
        _ => panic!("expected Local"),
    }
    match parse_uses("docker://alpine:3").unwrap() {
        ActionSource::Docker { image } => assert_eq!(image, "alpine:3"),
        _ => panic!("expected Docker"),
    }
    assert_eq!(
        parse_uses("nothing").unwrap_err().message(),
        "cannot parse uses 'nothing'"
    );
    assert_eq!(
        parse_uses("repo@v1").unwrap_err().message(),
        "invalid uses 'repo@v1', expected owner/repo@ref"
    );
}

#[test]
fn images_run_as_they_are_and_other_actions_are_fetched() {
    let mut step = make_action_step("docker://node:18", StepReferenceKind::ContainerRegistry);
    step.reference.image = Some("node:18".into());
    assert!(matches!(
        run_action_step(&step),
        Ok(ActionStart::Image(i)) if i == "node:18"
    ));
    assert!(extra_step_source(&step).is_none());

    let mut step = make_action_step("actions/checkout", StepReferenceKind::Repository);
    step.reference.git_ref = Some("v4".into());
    assert!(matches!(
        run_action_step(&step),
        Ok(ActionStart::Fetch(ActionSource::Remote { .. }))
    ));
    assert!(matches!(
        extra_step_source(&step),
        Some(ActionSource::Remote { .. })
    ));
    assert!(matches!(
        start_action(ActionSource::Local { path: "./a".into() }),
        ActionStart::Fetch(ActionSource::Local { .. })
    ));

    let script = make_action_step("", StepReferenceKind::Script);
    assert!(extra_step_source(&script).is_none());
    let unnamed = make_action_step("nothing", StepReferenceKind::Repository);
    assert!(run_action_step(&unnamed).is_err());
    assert!(extra_step_source(&unnamed).is_none());
}

#[test]
fn yaml_alternative_extension() {
    assert_eq!(
        metadata_file("/a", false, true).unwrap(),
        "/a/action.yaml"
    );
    assert_eq!(metadata_file("/a", true, true).unwrap(), "/a/action.yml");
}

#[test]
fn missing_file_returns_error() {
    assert_eq!(
        metadata_file("/a", false, false).unwrap_err(),
        "no action.yml or action.yaml found in /a"
    );
}

#[test]
fn kinds_of_reference_are_named() {
    assert!(matches!(
        StepReferenceKind::parse("script"),
        StepReferenceKind::Script
    ));
    assert!(matches!(
        StepReferenceKind::parse("repository"),
        StepReferenceKind::Repository
    ));
    assert!(matches!(
        StepReferenceKind::parse("containerregistry"),
        StepReferenceKind::ContainerRegistry
    ));
    assert!(matches!(
        StepReferenceKind::parse("action"),
        StepReferenceKind::Unknown(w) if w == "action"
    ));
}
