use mc_prod_test::layer::{LaunchOptions, Layer, ModloaderDef, ResolvedLayer};
use mc_prod_test::resolver::{Profile, ResolveError, Variant};

fn instance(version: &str) -> Layer {
    Layer::Instance {
        version: version.to_string(),
        loader: ModloaderDef::Vanilla,
        loader_version: None,
    }
}

fn resolved_instance(version: &str) -> ResolvedLayer {
    ResolvedLayer::Instance {
        version: version.to_string(),
        loader: ModloaderDef::Vanilla,
        loader_version: None,
    }
}

fn expand(layers: Vec<Layer>, name: &str) -> Vec<Variant> {
    let profile = Profile { name: name.to_string(), layers };
    match profile.get_variants(name.to_string()) {
        Ok(variants) => variants,
        Err(error) => panic!("unexpected error: {}", error.message()),
    }
}

#[test]
fn single_instance_gives_one_variant_named_after_the_profile() {
    let variants = expand(vec![instance("1.20.1")], "survival");
    assert_eq!(variants.len(), 1);
    assert_eq!(variants[0].name().as_str(), "survival");
    assert_eq!(variants[0].layers(), &vec![resolved_instance("1.20.1")]);
}

#[test]
fn branch_of_two_instances_gives_two_indexed_variants() {
    let variants = expand(
        vec![Layer::Variants(vec![instance("1.19.4"), instance("1.20.1")])],
        "survival",
    );
    assert_eq!(variants.len(), 2);
    assert_eq!(variants[0].name().as_str(), "survival00");
    assert_eq!(variants[0].layers(), &vec![resolved_instance("1.19.4")]);
    assert_eq!(variants[1].name().as_str(), "survival01");
    assert_eq!(variants[1].layers(), &vec![resolved_instance("1.20.1")]);
}

#[test]
fn empty_profile_gives_one_empty_variant() {
    let variants = expand(vec![], "empty");
    assert_eq!(variants.len(), 1);
    assert_eq!(variants[0].name().as_str(), "empty");
    assert!(variants[0].layers().is_empty());
}

#[test]
fn plain_layers_become_their_steps() {
    let variants = expand(
        vec![
            instance("1.20.1"),
            Layer::DeleteDirectory("saves".to_string()),
            Layer::DirectoryOverlay { source: "overlay".to_string() },
            Layer::ExecuteCommand("echo ready".to_string()),
            Layer::LaunchClient(LaunchOptions::Demo),
            Layer::ModrinthPack { id: "pack".to_string(), version: Some("2".to_string()) },
        ],
        "plain",
    );
    assert_eq!(variants.len(), 1);
    assert_eq!(variants[0].name().as_str(), "plain");
    assert_eq!(
        variants[0].layers(),
        &vec![
            resolved_instance("1.20.1"),
            ResolvedLayer::DeleteDirectory("saves".to_string()),
            ResolvedLayer::DirectoryOverlay { source: "overlay".to_string() },
            ResolvedLayer::ExecuteCommand("echo ready".to_string()),
            ResolvedLayer::LaunchClient(LaunchOptions::Demo),
            ResolvedLayer::ModrinthPack { id: "pack".to_string(), version: Some("2".to_string()) },
        ]
    );
}

#[test]
fn twelve_children_are_numbered_in_two_digits() {
    let children: Vec<Layer> = (0..12).map(|i| instance(&format!("1.{}", i))).collect();
    let variants = expand(vec![Layer::Variants(children)], "p");
    assert_eq!(variants.len(), 12);
    let names: Vec<&str> = variants.iter().map(|v| v.name().as_str()).collect();
    assert_eq!(
        names,
        vec!["p00", "p01", "p02", "p03", "p04", "p05", "p06", "p07", "p08", "p09", "p10", "p11"]
    );
    assert_eq!(variants[11].layers(), &vec![resolved_instance("1.11")]);
}

#[test]
fn hundred_and_one_children_reach_three_digits() {
    let children: Vec<Layer> = (0..101).map(|i| instance(&format!("1.{}", i))).collect();
    let variants = expand(vec![Layer::Variants(children)], "p");
    assert_eq!(variants.len(), 101);
    assert_eq!(variants[99].name().as_str(), "p99");
    assert_eq!(variants[100].name().as_str(), "p100");
}

#[test]
fn branch_of_one_child_keeps_the_name() {
    let variants = expand(vec![Layer::Variants(vec![instance("1.20.1")])], "solo");
    assert_eq!(variants.len(), 1);
    assert_eq!(variants[0].name().as_str(), "solo");
}

#[test]
fn nested_branches_multiply_and_concatenate_indices() {
    let variants = expand(
        vec![
            Layer::Variants(vec![instance("a"), instance("b")]),
            Layer::Variants(vec![
                Layer::ExecuteCommand("x".to_string()),
                Layer::ExecuteCommand("y".to_string()),
                Layer::ExecuteCommand("z".to_string()),
            ]),
        ],
        "m",
    );
    let names: Vec<&str> = variants.iter().map(|v| v.name().as_str()).collect();
    assert_eq!(names, vec!["m0000", "m0001", "m0002", "m0100", "m0101", "m0102"]);
    assert_eq!(
        variants[4].layers(),
        &vec![resolved_instance("b"), ResolvedLayer::ExecuteCommand("y".to_string())]
    );
}

#[test]
fn condition_follows_the_steps_of_its_own_path() {
    let variants = expand(
        vec![
            Layer::Variants(vec![instance("1.19.4"), instance("1.20.1")]),
            Layer::IfPresent {
                check_for: resolved_instance("1.19.4"),
                included: Box::new(Layer::DirectoryOverlay { source: "legacy".to_string() }),
            },
            Layer::IfNotPresent {
                check_for: resolved_instance("1.19.4"),
                included: Box::new(Layer::DirectoryOverlay { source: "modern".to_string() }),
            },
        ],
        "c",
    );
    assert_eq!(variants.len(), 2);
    assert_eq!(variants[0].name().as_str(), "c00");
    assert_eq!(
        variants[0].layers(),
        &vec![
            resolved_instance("1.19.4"),
            ResolvedLayer::DirectoryOverlay { source: "legacy".to_string() }
        ]
    );
    assert_eq!(variants[1].name().as_str(), "c01");
    assert_eq!(
        variants[1].layers(),
        &vec![
            resolved_instance("1.20.1"),
            ResolvedLayer::DirectoryOverlay { source: "modern".to_string() }
        ]
    );
}

#[test]
fn false_condition_at_the_end_is_passed_over() {
    let variants = expand(
        vec![
            instance("1.20.1"),
            Layer::IfPresent {
                check_for: resolved_instance("1.19.4"),
                included: Box::new(Layer::DirectoryOverlay { source: "legacy".to_string() }),
            },
        ],
        "tail",
    );
    assert_eq!(variants.len(), 1);
    assert_eq!(variants[0].name().as_str(), "tail");
    assert_eq!(variants[0].layers(), &vec![resolved_instance("1.20.1")]);
}

#[test]
fn children_of_a_branch_do_not_see_each_other() {
    let variants = expand(
        vec![Layer::Variants(vec![
            instance("1.20.1"),
            Layer::IfPresent {
                check_for: resolved_instance("1.20.1"),
                included: Box::new(Layer::ExecuteCommand("never".to_string())),
            },
        ])],
        "b",
    );
    assert_eq!(variants.len(), 1);
    assert_eq!(variants[0].name().as_str(), "b");
    assert_eq!(variants[0].layers(), &vec![resolved_instance("1.20.1")]);
}

#[test]
fn lone_condition_is_malformed() {
    let profile = Profile {
        name: "broken".to_string(),
        layers: vec![Layer::IfPresent {
            check_for: resolved_instance("1.20.1"),
            included: Box::new(instance("1.20.1")),
        }],
    };
    match profile.get_variants("broken".to_string()) {
        Err(error) => {
            assert!(matches!(&error, ResolveError::MalformedTree { name } if name == "broken"));
            assert_eq!(
                error.message(),
                "malformed layer tree: conditional resolved to nothing with no further layers to fall back on: broken"
            );
        }
        Ok(_) => panic!("a lone condition must be refused"),
    }
}

#[test]
fn empty_branch_alone_is_malformed() {
    let profile = Profile { name: "none".to_string(), layers: vec![Layer::Variants(vec![])] };
    assert!(profile.get_variants("none".to_string()).is_err());
}

#[test]
fn two_false_conditions_give_one_empty_variant() {
    let condition = || Layer::IfPresent {
        check_for: resolved_instance("1.20.1"),
        included: Box::new(instance("1.20.1")),
    };
    let variants = expand(vec![condition(), condition()], "quiet");
    assert_eq!(variants.len(), 1);
    assert_eq!(variants[0].name().as_str(), "quiet");
    assert!(variants[0].layers().is_empty());
}

#[test]
fn expanding_twice_gives_the_same_variants() {
    let layers = || {
        vec![
            Layer::Variants(vec![instance("a"), instance("b")]),
            Layer::IfNotPresent {
                check_for: resolved_instance("a"),
                included: Box::new(Layer::Variants(vec![
                    Layer::ExecuteCommand("x".to_string()),
                    Layer::ExecuteCommand("y".to_string()),
                ])),
            },
        ]
    };
    let first = expand(layers(), "twice");
    let second = expand(layers(), "twice");
    assert_eq!(first.len(), second.len());
    for (a, b) in first.iter().zip(second.iter()) {
        assert_eq!(a.name(), b.name());
        assert_eq!(a.layers(), b.layers());
    }
    let names: Vec<&str> = first.iter().map(|v| v.name().as_str()).collect();
    assert_eq!(names, vec!["twice00", "twice0100", "twice0101"]);
}

#[test]
fn resolve_of_a_branch_concatenates_in_declaration_order() {
    let layer = Layer::Variants(vec![
        instance("a"),
        Layer::Variants(vec![instance("b"), instance("c")]),
        Layer::IfPresent {
            check_for: resolved_instance("seen"),
            included: Box::new(instance("d")),
        },
        Layer::IfNotPresent {
            check_for: resolved_instance("seen"),
            included: Box::new(instance("e")),
        },
    ]);
    let previous = vec![resolved_instance("seen")];
    assert_eq!(
        layer.clone().resolve(&previous),
        vec![
            resolved_instance("a"),
            resolved_instance("b"),
            resolved_instance("c"),
            resolved_instance("d")
        ]
    );
    assert_eq!(
        layer.resolve(&[]),
        vec![
            resolved_instance("a"),
            resolved_instance("b"),
            resolved_instance("c"),
            resolved_instance("e")
        ]
    );
}

#[test]
fn steps_are_equal_only_when_every_field_is() {
    assert_eq!(resolved_instance("1.20.1"), resolved_instance("1.20.1"));
    assert_ne!(resolved_instance("1.20.1"), resolved_instance("1.20.2"));
    assert_ne!(
        resolved_instance("1.20.1"),
        ResolvedLayer::Instance {
            version: "1.20.1".to_string(),
            loader: ModloaderDef::Fabric,
            loader_version: None,
        }
    );
    assert_ne!(
        resolved_instance("1.20.1"),
        ResolvedLayer::Instance {
            version: "1.20.1".to_string(),
            loader: ModloaderDef::Vanilla,
            loader_version: Some("0.14".to_string()),
        }
    );
    assert_ne!(
        ResolvedLayer::DeleteDirectory("x".to_string()),
        ResolvedLayer::ExecuteCommand("x".to_string())
    );
    assert_eq!(
        ResolvedLayer::LaunchClient(LaunchOptions::Offline {
            account_name: Some("a".to_string()),
            world_name: None
        }),
        ResolvedLayer::LaunchClient(LaunchOptions::Offline {
            account_name: Some("a".to_string()),
            world_name: None
        })
    );
    assert_ne!(
        ResolvedLayer::LaunchClient(LaunchOptions::Offline {
            account_name: Some("a".to_string()),
            world_name: None
        }),
        ResolvedLayer::LaunchClient(LaunchOptions::Online {
            account_name: Some("a".to_string()),
            world_name: None
        })
    );
}

#[test]
fn names_of_variants_are_pairwise_distinct() {
    let digits = || {
        Layer::Variants((0..10).map(|i| Layer::ExecuteCommand(format!("echo {}", i))).collect())
    };
    let variants = expand(
        vec![
            Layer::Variants(vec![instance("a"), instance("b"), instance("c")]),
            Layer::IfNotPresent {
                check_for: resolved_instance("b"),
                included: Box::new(digits()),
            },
            digits(),
        ],
        "u",
    );
    assert_eq!(variants.len(), 10 * 10 + 10 + 10 * 10);
    let mut names: Vec<String> = variants.iter().map(|v| v.name().clone()).collect();
    names.sort();
    names.dedup();
    assert_eq!(names.len(), variants.len());
}
