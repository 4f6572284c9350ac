use mc_prod_test::construct::{EnvironmentHandle, PreparedVariant};
use mc_prod_test::launch::{
    conclude, Account, ExitOutcome, LaunchError, Level, PrepareError, ReadOutcome, Stream,
};
use mc_prod_test::layer::{LaunchOptions, ModloaderDef};
use mc_prod_test::report::{frame, Stage};

fn account(name: &str, selected: bool) -> Account {
    Account {
        uuid: format!("uuid-{}", name),
        username: name.to_string(),
        refresh_token: "r".to_string(),
        token: "t".to_string(),
        selected,
    }
}

#[test]
fn demo_needs_no_identity() {
    let parameters = LaunchOptions::Demo.into(vec![]).unwrap();
    assert!(parameters.account.is_none());
    assert!(parameters.world.is_none());
}

#[test]
fn online_with_empty_identity_list_must_be_signed_in() {
    let error = LaunchOptions::Online { account_name: None, world_name: None }.into(vec![]).unwrap_err();
    assert!(matches!(error, PrepareError::NotSignedIn));
    assert!(error.message().contains("must be signed in"));
    assert_eq!(error.message(), "must be signed in to launch with an identity");
}

#[test]
fn offline_with_unknown_name_makes_a_placeholder() {
    let options = LaunchOptions::Offline {
        account_name: Some("guest".to_string()),
        world_name: Some("lobby".to_string()),
    };
    let parameters = options.into(vec![account("alex", true)]).unwrap();
    let chosen = parameters.account.unwrap();
    assert_eq!(chosen.username, "guest");
    assert_eq!(chosen.uuid, "00000000-0000-0000-0000-000000000000");
    assert_eq!(chosen.refresh_token, "");
    assert_eq!(chosen.token, "");
    assert!(chosen.selected);
    assert_eq!(parameters.world, Some("lobby".to_string()));
}

#[test]
fn offline_with_empty_identity_list_must_be_signed_in() {
    let options = LaunchOptions::Offline { account_name: Some("guest".to_string()), world_name: None };
    assert!(matches!(options.into(vec![]), Err(PrepareError::NotSignedIn)));
}

#[test]
fn online_takes_the_first_identity_of_the_name() {
    let mut second = account("alex", false);
    second.uuid = "other".to_string();
    let options = LaunchOptions::Online { account_name: Some("alex".to_string()), world_name: None };
    let parameters = options.into(vec![account("steve", true), account("alex", false), second]).unwrap();
    let chosen = parameters.account.unwrap();
    assert_eq!(chosen.username, "alex");
    assert_eq!(chosen.uuid, "uuid-alex");
    assert!(parameters.world.is_none());
}

#[test]
fn online_with_unknown_name_names_the_missing_identity() {
    let options = LaunchOptions::Online { account_name: Some("ghost".to_string()), world_name: None };
    let error = options.into(vec![account("steve", true)]).unwrap_err();
    assert!(matches!(&error, PrepareError::UnknownAccount { name } if name == "ghost"));
    assert_eq!(error.message(), "no account with the name matching ghost was found");
}

#[test]
fn without_a_name_the_selected_identity_is_taken() {
    let accounts = || vec![account("steve", false), account("alex", true), account("kai", true)];
    let online = LaunchOptions::Online { account_name: None, world_name: Some("w".to_string()) };
    let parameters = online.into(accounts()).unwrap();
    assert_eq!(parameters.account.unwrap().username, "alex");
    assert_eq!(parameters.world, Some("w".to_string()));
    let offline = LaunchOptions::Offline { account_name: None, world_name: None };
    assert_eq!(offline.into(accounts()).unwrap().account.unwrap().username, "alex");
}

#[test]
fn without_a_name_and_a_selection_preparation_fails() {
    let online = LaunchOptions::Online { account_name: None, world_name: None };
    let error = online.into(vec![account("steve", false)]).unwrap_err();
    assert!(matches!(error, PrepareError::NoSelectedAccount));
    assert_eq!(error.message(), "no selected account was found");
    let offline = LaunchOptions::Offline { account_name: None, world_name: None };
    assert!(matches!(offline.into(vec![account("steve", false)]), Err(PrepareError::NoSelectedAccount)));
}

#[test]
fn default_launch_options_are_online_and_unnamed() {
    assert_eq!(LaunchOptions::default(), LaunchOptions::Online { account_name: None, world_name: None });
}

#[test]
fn prepared_variant_keeps_its_environment() {
    let handle = EnvironmentHandle {
        path: "/base/p".to_string(),
        version: "1.20.1".to_string(),
        loader: ModloaderDef::Quilt,
    };
    let prepared = PreparedVariant::new(handle, LaunchOptions::Demo);
    let request = prepared.run(vec![]).unwrap();
    assert_eq!(request.environment.path, "/base/p");
    assert_eq!(request.environment.version, "1.20.1");
    assert_eq!(request.environment.loader, ModloaderDef::Quilt);
    assert!(request.parameters.account.is_none());
}

#[test]
fn prepared_variant_fails_where_its_options_do() {
    let handle = EnvironmentHandle {
        path: "/base/p".to_string(),
        version: "1.20.1".to_string(),
        loader: ModloaderDef::Forge,
    };
    let prepared = PreparedVariant::new(handle, LaunchOptions::default());
    assert!(matches!(prepared.run(vec![]), Err(PrepareError::NotSignedIn)));
}

#[test]
fn streams_have_their_levels() {
    assert_eq!(Stream::Output.level(), Level::Info);
    assert_eq!(Stream::Error.level(), Level::Error);
}

#[test]
fn launch_succeeds_only_when_all_three_tasks_do() {
    assert!(conclude(
        ExitOutcome::Exited { success: true },
        ReadOutcome::Completed,
        ReadOutcome::Completed,
        vec![]
    )
    .is_ok());
}

#[test]
fn unsuccessful_exit_fails_the_launch_with_the_error_tail() {
    let error = conclude(
        ExitOutcome::Exited { success: false },
        ReadOutcome::Completed,
        ReadOutcome::Failed { reason: "later".to_string() },
        vec!["first".to_string(), "second".to_string()],
    )
    .unwrap_err();
    assert!(matches!(&error, LaunchError::ExitFailure { error_tail } if error_tail.len() == 2));
    assert_eq!(error.message(), "error while running instance\nfirst\nsecond");
}

#[test]
fn stream_failures_fail_the_launch() {
    let error = conclude(
        ExitOutcome::Exited { success: true },
        ReadOutcome::Failed { reason: "broken pipe".to_string() },
        ReadOutcome::Failed { reason: "other".to_string() },
        vec![],
    )
    .unwrap_err();
    assert!(matches!(&error, LaunchError::StreamFailed { stream: Stream::Error, reason } if reason == "broken pipe"));
    assert_eq!(error.message(), "could not read the errors of the instance: broken pipe");
    let error = conclude(
        ExitOutcome::Exited { success: true },
        ReadOutcome::Completed,
        ReadOutcome::Failed { reason: "closed".to_string() },
        vec![],
    )
    .unwrap_err();
    assert!(matches!(&error, LaunchError::StreamFailed { stream: Stream::Output, .. }));
    assert_eq!(error.message(), "could not read the output of the instance: closed");
}

#[test]
fn failed_wait_fails_the_launch() {
    let error = conclude(
        ExitOutcome::Failed { reason: "no child".to_string() },
        ReadOutcome::Completed,
        ReadOutcome::Completed,
        vec![],
    )
    .unwrap_err();
    assert!(matches!(&error, LaunchError::WaitFailed { .. }));
    assert_eq!(error.message(), "could not wait for the instance: no child");
}

#[test]
fn process_that_does_not_start_fails_the_launch() {
    let error = conclude(
        ExitOutcome::NotStarted { reason: "java: not found".to_string() },
        ReadOutcome::Completed,
        ReadOutcome::Completed,
        vec![],
    )
    .unwrap_err();
    assert!(matches!(&error, LaunchError::NotStarted { .. }));
    assert_eq!(error.message(), "the instance could not be started: java: not found");
}

#[test]
fn failures_are_framed_by_stage_and_variant() {
    let cause = "no selected account was found".to_string();
    assert_eq!(
        frame(Stage::Prepare, &"pack01".to_string(), &cause),
        "while preparing variant pack01: no selected account was found"
    );
    assert_eq!(
        frame(Stage::Launch, &"pack01".to_string(), &"x".to_string()),
        "while launching variant pack01: x"
    );
    assert_eq!(
        frame(Stage::Construct, &"pack01".to_string(), &"y".to_string()),
        "while constructing variant pack01: y"
    );
}
