use mc_prod_test::command::{create, run, switch, RunError, Starter};
use mc_prod_test::config::{ConfigError, LoadOutcome, ProfileConfig};
use mc_prod_test::layer::{Layer, ModloaderDef, ResolvedLayer};
use mc_prod_test::resolver::{Profile, ResolveError};

fn instance(version: &str) -> Layer {
    Layer::Instance { version: version.to_string(), loader: ModloaderDef::Vanilla, loader_version: None }
}

fn profile(name: &str, layers: Vec<Layer>) -> Profile {
    Profile { name: name.to_string(), layers }
}

fn store() -> ProfileConfig {
    ProfileConfig::from_parts(
        vec![
            profile("alpha", vec![instance("1.20.1")]),
            profile("beta", vec![Layer::Variants(vec![instance("a"), instance("b")])]),
        ],
        Some("beta".to_string()),
        "/home/profiles.json".to_string(),
    )
    .unwrap()
}

#[test]
fn missing_document_gives_an_empty_store_to_be_written() {
    let loaded = ProfileConfig::read_or_create("/p.json".to_string(), LoadOutcome::Missing).unwrap();
    assert!(loaded.created);
    assert!(loaded.config.profiles().is_empty());
    assert!(loaded.config.active_config().is_none());
    assert_eq!(loaded.config.path(), "/p.json");
}

#[test]
fn read_document_gives_its_profiles() {
    let outcome = LoadOutcome::Document {
        profiles: vec![profile("alpha", vec![instance("1.20.1")])],
        active_config: Some("alpha".to_string()),
    };
    let loaded = ProfileConfig::read_or_create("/p.json".to_string(), outcome).unwrap();
    assert!(!loaded.created);
    assert_eq!(loaded.config.list_profiles(), vec!["alpha".to_string()]);
    assert_eq!(loaded.config.active_config(), &Some("alpha".to_string()));
    assert_eq!(loaded.config.path(), "/p.json");
}

#[test]
fn invalid_and_unreadable_documents_are_errors() {
    let error = ProfileConfig::read_or_create(
        "/p.json".to_string(),
        LoadOutcome::Invalid { reason: "expected value at line 1".to_string() },
    )
    .unwrap_err();
    assert!(matches!(&error, ConfigError::InvalidFormat { .. }));
    assert_eq!(error.message(), "profile config format invalid: expected value at line 1");
    let error = ProfileConfig::read_or_create(
        "/p.json".to_string(),
        LoadOutcome::Unreadable { reason: "permission denied".to_string() },
    )
    .unwrap_err();
    assert!(matches!(&error, ConfigError::Unreadable { .. }));
    assert_eq!(error.message(), "could not read or create config file: permission denied");
}

#[test]
fn document_with_a_name_twice_is_refused() {
    let error = ProfileConfig::from_parts(
        vec![profile("a", vec![]), profile("b", vec![]), profile("b", vec![]), profile("a", vec![])],
        None,
        "/p.json".to_string(),
    )
    .unwrap_err();
    assert!(matches!(&error, ConfigError::ProfileExists { name } if name == "b"));
}

#[test]
fn profiles_are_listed_in_order() {
    assert_eq!(store().list_profiles(), vec!["alpha".to_string(), "beta".to_string()]);
    assert!(store().contains(&"alpha".to_string()));
    assert!(!store().contains(&"gamma".to_string()));
    assert_eq!(store().get(&"beta".to_string()).unwrap().name, "beta");
    assert!(store().get(&"gamma".to_string()).is_none());
}

#[test]
fn create_adds_a_profile_with_its_starter_layers() {
    let mut config = store();
    create(
        "gamma".to_string(),
        Starter::Modded {
            version: "1.20.1".to_string(),
            loader: ModloaderDef::Quilt,
            loader_version: "0.20".to_string(),
        },
        &mut config,
    )
    .unwrap();
    assert_eq!(
        config.list_profiles(),
        vec!["alpha".to_string(), "beta".to_string(), "gamma".to_string()]
    );
    let added = config.get(&"gamma".to_string()).unwrap();
    assert_eq!(added.layers.len(), 1);
    assert_eq!(
        added.layers[0].clone().resolve(&[]),
        vec![ResolvedLayer::Instance {
            version: "1.20.1".to_string(),
            loader: ModloaderDef::Quilt,
            loader_version: Some("0.20".to_string()),
        }]
    );
    assert_eq!(config.active_config(), &Some("beta".to_string()));
}

#[test]
fn starters_give_their_layers() {
    assert!(Starter::Empty.layers().is_empty());
    let layers = Starter::Vanilla { version: "1.20.1".to_string() }.layers();
    assert_eq!(
        layers[0].clone().resolve(&[]),
        vec![ResolvedLayer::Instance {
            version: "1.20.1".to_string(),
            loader: ModloaderDef::Vanilla,
            loader_version: None,
        }]
    );
    let layers = Starter::Modded {
        version: "1.20.1".to_string(),
        loader: ModloaderDef::Vanilla,
        loader_version: "ignored".to_string(),
    }
    .layers();
    assert_eq!(
        layers[0].clone().resolve(&[]),
        vec![ResolvedLayer::Instance {
            version: "1.20.1".to_string(),
            loader: ModloaderDef::Vanilla,
            loader_version: None,
        }]
    );
}

#[test]
fn create_refuses_a_name_that_is_taken() {
    let mut config = store();
    let error = create("alpha".to_string(), Starter::Empty, &mut config).unwrap_err();
    assert!(matches!(&error, ConfigError::ProfileExists { name } if name == "alpha"));
    assert_eq!(error.message(), "profile already exists: alpha");
    assert_eq!(config.list_profiles(), vec!["alpha".to_string(), "beta".to_string()]);
    assert_eq!(config.get(&"alpha".to_string()).unwrap().layers.len(), 1);
}

#[test]
fn switch_selects_an_existing_profile() {
    let mut config = store();
    switch(Some("alpha".to_string()), &mut config).unwrap();
    assert_eq!(config.active_config(), &Some("alpha".to_string()));
    switch(None, &mut config).unwrap();
    assert_eq!(config.active_config(), &None);
}

#[test]
fn switch_refuses_an_unknown_profile() {
    let mut config = store();
    let error = switch(Some("gamma".to_string()), &mut config).unwrap_err();
    assert!(matches!(&error, ConfigError::UnknownProfile { name } if name == "gamma"));
    assert_eq!(error.message(), "profile does not exist: gamma");
    assert_eq!(config.active_config(), &Some("beta".to_string()));
}

#[test]
fn run_takes_the_named_profile_before_the_active_one() {
    let plan = run(Some("alpha".to_string()), &store()).unwrap();
    assert_eq!(plan.name, "alpha");
    assert_eq!(plan.variants.len(), 1);
    assert_eq!(plan.variants[0].name(), "alpha");
}

#[test]
fn run_falls_back_to_the_active_profile() {
    let plan = run(None, &store()).unwrap();
    assert_eq!(plan.name, "beta");
    let names: Vec<&str> = plan.variants.iter().map(|v| v.name().as_str()).collect();
    assert_eq!(names, vec!["beta00", "beta01"]);
}

#[test]
fn run_without_a_name_and_an_active_profile_asks_for_one() {
    let mut config = store();
    switch(None, &mut config).unwrap();
    let error = run(None, &config).unwrap_err();
    assert!(matches!(&error, RunError::Config(ConfigError::NoProfileSelected)));
    assert_eq!(error.message(), "no profile was named and none is active: name the profile to use");
}

#[test]
fn run_of_an_unknown_profile_is_refused() {
    let error = run(Some("gamma".to_string()), &store()).unwrap_err();
    assert!(matches!(&error, RunError::Config(ConfigError::UnknownProfile { name }) if name == "gamma"));
}

#[test]
fn run_of_a_malformed_profile_is_refused() {
    let mut config = store();
    config
        .create_profile(
            "broken".to_string(),
            vec![Layer::IfPresent {
                check_for: ResolvedLayer::ExecuteCommand("x".to_string()),
                included: Box::new(instance("1.20.1")),
            }],
        )
        .unwrap();
    let error = run(Some("broken".to_string()), &config).unwrap_err();
    assert!(matches!(&error, RunError::Resolve(ResolveError::MalformedTree { name }) if name == "broken"));
}

#[test]
fn save_failure_is_reported_as_possible_inconsistency() {
    let error = ConfigError::NotSaved { reason: "read-only file system".to_string() };
    assert_eq!(
        error.message(),
        "error saving config, state may now be inconsistent with disk: read-only file system"
    );
}
