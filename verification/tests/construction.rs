use mc_prod_test::construct::{
    Applied, ConstructAction, ConstructError, ConstructEvent, ConstructStep, Construction, Subject,
};
use mc_prod_test::layer::{LaunchOptions, ModloaderDef, ResolvedLayer};
use mc_prod_test::resolver::Variant;

fn instance_step() -> ResolvedLayer {
    ResolvedLayer::Instance {
        version: "1.20.1".to_string(),
        loader: ModloaderDef::Fabric,
        loader_version: Some("0.15".to_string()),
    }
}

fn variant(layers: Vec<ResolvedLayer>) -> Variant {
    Variant::new("demo00".to_string(), layers)
}

fn expect_perform(step: ConstructStep) -> (Construction, ConstructAction) {
    match step {
        ConstructStep::Perform { state, action } => (state, action),
        other => panic!("expected work to do, got {:?}", other),
    }
}

fn expect_error(step: ConstructStep) -> ConstructError {
    match step {
        ConstructStep::Failed(failure) => {
            assert_eq!(failure.variant, "demo00");
            failure.error
        }
        other => panic!("expected a failure, got {:?}", other),
    }
}

#[test]
fn instance_is_provisioned_at_the_target_path() {
    let (state, action) = expect_perform(variant(vec![instance_step()]).prepare_at("/base/demo00".to_string()));
    assert_eq!(state.name(), "demo00");
    assert!(matches!(state.subject(), Subject::Directory(path) if path == "/base/demo00"));
    match action {
        ConstructAction::ProvisionEnvironment { root, version, loader, loader_version } => {
            assert_eq!(root, "/base/demo00");
            assert_eq!(version, "1.20.1");
            assert_eq!(loader, ModloaderDef::Fabric);
            assert_eq!(loader_version, Some("0.15".to_string()));
        }
        other => panic!("unexpected action {:?}", other),
    }
    match state.advance(ConstructEvent::EnvironmentReady { path: "/base/demo00".to_string() }) {
        ConstructStep::Finished(prepared) => {
            assert_eq!(prepared.environment().path, "/base/demo00");
            assert_eq!(prepared.environment().version, "1.20.1");
            assert_eq!(prepared.environment().loader, ModloaderDef::Fabric);
            assert_eq!(
                prepared.launch_options(),
                &LaunchOptions::Online { account_name: None, world_name: None }
            );
        }
        other => panic!("expected the variant to be finished, got {:?}", other),
    }
}

#[test]
fn deleting_a_missing_directory_is_a_successful_no_op() {
    let layers = vec![ResolvedLayer::DeleteDirectory("saves".to_string()), instance_step()];
    let (state, action) = expect_perform(variant(layers).prepare_at("/base/demo00".to_string()));
    match action {
        ConstructAction::ProbeDirectory { root, target } => {
            assert_eq!(root, "/base/demo00");
            assert_eq!(target, "saves");
        }
        other => panic!("unexpected action {:?}", other),
    }
    let (state, action) =
        expect_perform(state.advance(ConstructEvent::DirectoryProbed { is_directory: false }));
    assert!(matches!(action, ConstructAction::ProvisionEnvironment { .. }));
    assert!(matches!(
        state.advance(ConstructEvent::EnvironmentReady { path: "/base/demo00".to_string() }),
        ConstructStep::Finished(_)
    ));
}

#[test]
fn deleting_an_existing_directory_asks_for_its_removal() {
    let layers = vec![instance_step(), ResolvedLayer::DeleteDirectory("saves".to_string())];
    let (state, _) = expect_perform(variant(layers).prepare_at("/base/demo00".to_string()));
    let (state, action) = expect_perform(
        state.advance(ConstructEvent::EnvironmentReady { path: "/envs/demo00".to_string() }),
    );
    match action {
        ConstructAction::ProbeDirectory { root, target } => {
            assert_eq!(root, "/envs/demo00");
            assert_eq!(target, "saves");
        }
        other => panic!("unexpected action {:?}", other),
    }
    let (state, action) =
        expect_perform(state.advance(ConstructEvent::DirectoryProbed { is_directory: true }));
    match action {
        ConstructAction::RemoveDirectory { root, target } => {
            assert_eq!(root, "/envs/demo00");
            assert_eq!(target, "saves");
        }
        other => panic!("unexpected action {:?}", other),
    }
    assert!(matches!(state.advance(ConstructEvent::DirectoryRemoved), ConstructStep::Finished(_)));
}

#[test]
fn failing_command_fails_the_variant() {
    let layers = vec![instance_step(), ResolvedLayer::ExecuteCommand("exit 3".to_string())];
    let (state, _) = expect_perform(variant(layers).prepare_at("/base/demo00".to_string()));
    let (state, action) = expect_perform(
        state.advance(ConstructEvent::EnvironmentReady { path: "/base/demo00".to_string() }),
    );
    match action {
        ConstructAction::RunCommand { command, working_directory } => {
            assert_eq!(command, "exit 3");
            assert_eq!(working_directory, "/base/demo00");
        }
        other => panic!("unexpected action {:?}", other),
    }
    let step = state.advance(ConstructEvent::CommandFinished { success: false });
    match step {
        ConstructStep::Failed(failure) => {
            assert!(matches!(&failure.error, ConstructError::CommandFailed { command } if command == "exit 3"));
            assert_eq!(failure.error.message(), "command did not run properly: exit 3");
            assert_eq!(
                failure.message(),
                "while constructing variant demo00: command did not run properly: exit 3"
            );
        }
        other => panic!("expected a failure, got {:?}", other),
    }
}

#[test]
fn succeeding_command_lets_the_variant_go_on() {
    let layers = vec![instance_step(), ResolvedLayer::ExecuteCommand("true".to_string())];
    let (state, _) = expect_perform(variant(layers).prepare_at("/base/demo00".to_string()));
    let (state, _) = expect_perform(
        state.advance(ConstructEvent::EnvironmentReady { path: "/base/demo00".to_string() }),
    );
    assert!(matches!(
        state.advance(ConstructEvent::CommandFinished { success: true }),
        ConstructStep::Finished(_)
    ));
}

#[test]
fn content_pack_fails_as_unsupported() {
    let layers = vec![
        instance_step(),
        ResolvedLayer::ModrinthPack { id: "fabulously".to_string(), version: None },
    ];
    let (state, _) = expect_perform(variant(layers).prepare_at("/base/demo00".to_string()));
    let error = expect_error(
        state.advance(ConstructEvent::EnvironmentReady { path: "/base/demo00".to_string() }),
    );
    assert!(matches!(&error, ConstructError::Unsupported { id } if id == "fabulously"));
    assert_eq!(error.message(), "content packs are not implemented: fabulously");
}

#[test]
fn variant_without_instance_produces_no_environment() {
    let error = expect_error(variant(vec![]).prepare_at("/base/demo00".to_string()));
    assert!(matches!(error, ConstructError::NoEnvironment));
    assert_eq!(error.message(), "a variant must produce an environment");

    let layers = vec![ResolvedLayer::DirectoryOverlay { source: "overlay".to_string() }];
    let (state, action) = expect_perform(variant(layers).prepare_at("/base/demo00".to_string()));
    match action {
        ConstructAction::OverlayDirectory { root, source } => {
            assert_eq!(root, "/base/demo00");
            assert_eq!(source, "overlay");
        }
        other => panic!("unexpected action {:?}", other),
    }
    let error = expect_error(state.advance(ConstructEvent::DirectoryOverlaid));
    assert!(matches!(error, ConstructError::NoEnvironment));
}

#[test]
fn launch_options_are_gathered_without_work() {
    let layers = vec![
        ResolvedLayer::LaunchClient(LaunchOptions::Demo),
        instance_step(),
        ResolvedLayer::LaunchClient(LaunchOptions::Offline {
            account_name: Some("steve".to_string()),
            world_name: Some("creative".to_string()),
        }),
    ];
    let (state, action) = expect_perform(variant(layers).prepare_at("/base/demo00".to_string()));
    assert!(matches!(action, ConstructAction::ProvisionEnvironment { .. }));
    match state.advance(ConstructEvent::EnvironmentReady { path: "/base/demo00".to_string() }) {
        ConstructStep::Finished(prepared) => assert_eq!(
            prepared.launch_options(),
            &LaunchOptions::Offline {
                account_name: Some("steve".to_string()),
                world_name: Some("creative".to_string()),
            }
        ),
        other => panic!("expected the variant to be finished, got {:?}", other),
    }
}

#[test]
fn second_instance_replaces_the_subject() {
    let layers = vec![
        instance_step(),
        ResolvedLayer::Instance {
            version: "1.19.4".to_string(),
            loader: ModloaderDef::Vanilla,
            loader_version: None,
        },
    ];
    let (state, _) = expect_perform(variant(layers).prepare_at("/base/demo00".to_string()));
    let (state, action) = expect_perform(
        state.advance(ConstructEvent::EnvironmentReady { path: "/first".to_string() }),
    );
    assert!(matches!(&action, ConstructAction::ProvisionEnvironment { root, .. } if root == "/first"));
    match state.advance(ConstructEvent::EnvironmentReady { path: "/second".to_string() }) {
        ConstructStep::Finished(prepared) => {
            assert_eq!(prepared.environment().path, "/second");
            assert_eq!(prepared.environment().version, "1.19.4");
            assert_eq!(prepared.environment().loader, ModloaderDef::Vanilla);
        }
        other => panic!("expected the variant to be finished, got {:?}", other),
    }
}

#[test]
fn failed_work_fails_the_variant_with_its_reason() {
    let (state, _) = expect_perform(variant(vec![instance_step()]).prepare_at("/base/demo00".to_string()));
    let error = expect_error(state.advance(ConstructEvent::Failed { reason: "disk full".to_string() }));
    assert!(matches!(&error, ConstructError::ActionFailed { reason } if reason == "disk full"));
    assert_eq!(error.message(), "construction step failed: disk full");
}

#[test]
fn event_that_answers_nothing_is_refused() {
    let (state, _) = expect_perform(variant(vec![instance_step()]).prepare_at("/base/demo00".to_string()));
    let error = expect_error(state.advance(ConstructEvent::DirectoryRemoved));
    assert!(matches!(error, ConstructError::UnexpectedEvent));
    assert_eq!(error.message(), "the event does not answer the pending step");

    let layers = vec![ResolvedLayer::DeleteDirectory("saves".to_string())];
    let (state, _) = expect_perform(variant(layers).prepare_at("/base/demo00".to_string()));
    let error = expect_error(state.advance(ConstructEvent::DirectoryRemoved));
    assert!(matches!(error, ConstructError::UnexpectedEvent));
}

#[test]
fn apply_of_a_single_step_gives_action_or_result() {
    let subject = Subject::Directory("/d".to_string());
    let step = ResolvedLayer::LaunchClient(LaunchOptions::Demo);
    match step.apply(&subject, LaunchOptions::default(), false, ConstructEvent::Started) {
        Ok(Applied::Done(None, options)) => assert_eq!(options, LaunchOptions::Demo),
        other => panic!("unexpected outcome {:?}", other),
    }
    let step = ResolvedLayer::ExecuteCommand("make".to_string());
    match step.apply(&subject, LaunchOptions::Demo, false, ConstructEvent::CommandFinished { success: true }) {
        Ok(Applied::Done(None, options)) => assert_eq!(options, LaunchOptions::Demo),
        other => panic!("unexpected outcome {:?}", other),
    }
    assert!(step.action(&"/d".to_string()).is_some());
    assert!(ResolvedLayer::LaunchClient(LaunchOptions::Demo).action(&"/d".to_string()).is_none());
}

#[test]
fn prepare_begins_in_the_directory_of_the_name_below_the_base() {
    let expected = std::path::Path::new("/base").join("demo00").to_string_lossy().into_owned();
    assert_ne!(expected, "/base");
    let (state, action) = expect_perform(variant(vec![instance_step()]).prepare("/base".to_string()));
    assert!(matches!(state.subject(), Subject::Directory(path) if *path == expected));
    assert!(matches!(&action, ConstructAction::ProvisionEnvironment { root, .. } if *root == expected));
}
