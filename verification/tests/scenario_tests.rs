use carbide_rvs::scenario::{
    loaded_scenarios, os_uri, Artifact, LoadOutcome, OsImage, RackTarget, Scenario, SetupStep,
    TeardownStep, TestStep,
};

fn example() -> Scenario {
    Scenario {
        rack: RackTarget { model: "gb200nvl".to_string(), sot_release: "1.2.5".to_string() },
        os: OsImage { uri: "http://images/os.img".to_string() },
        artifacts: (0..6)
            .map(|i| Artifact {
                name: format!("a{}", i),
                output: format!("a{}.bin", i),
                uri: Some(format!("http://files/a{}", i)),
                sotpath: None,
            })
            .collect(),
        setup: vec![SetupStep { execute: "setup.sh".to_string() }],
        test: vec![
            TestStep { name: "nv_basic".to_string(), execute: "basic.sh".to_string() },
            TestStep { name: "nv_full".to_string(), execute: "full.sh".to_string() },
        ],
        teardown: vec![TeardownStep { execute: "teardown.sh".to_string() }],
    }
}

#[test]
fn a_parsed_scenario_is_returned_unchanged() {
    let scenario =
        Scenario::load("doc/example_scenario.toml", LoadOutcome::Parsed(example())).unwrap();
    assert_eq!(scenario.rack.model, "gb200nvl");
    assert_eq!(scenario.rack.sot_release, "1.2.5");
    assert!(!scenario.os.uri.is_empty());
    assert_eq!(scenario.artifacts.len(), 6);
    assert_eq!(scenario.setup.len(), 1);
    assert_eq!(scenario.test.len(), 2);
    assert_eq!(scenario.teardown.len(), 1);
    assert_eq!(scenario.test[0].name, "nv_basic");
}

#[test]
fn an_unreadable_file_is_reported() {
    let result = Scenario::load("a.toml", LoadOutcome::Unreadable("gone".to_string()));
    assert_eq!(result.unwrap_err(), "read a.toml: gone");
}

#[test]
fn a_malformed_file_is_reported() {
    let result = Scenario::load("a.toml", LoadOutcome::Malformed("bad".to_string()));
    assert_eq!(result.unwrap_err(), "parse a.toml: bad");
}

#[test]
fn a_bad_file_does_not_block_the_others() {
    let mut second = example();
    second.rack.model = "other".to_string();
    let results = vec![Err("x".to_string()), Ok(example()), Err("y".to_string()), Ok(second)];
    let scenarios = loaded_scenarios(results);
    assert_eq!(scenarios.len(), 2);
    assert_eq!(scenarios[0].rack.model, "gb200nvl");
    assert_eq!(scenarios[1].rack.model, "other");
    assert!(loaded_scenarios(vec![]).is_empty());
}

#[test]
fn the_first_scenario_names_the_os_image() {
    assert_eq!(os_uri(&vec![example()]), "http://images/os.img");
    assert_eq!(os_uri(&vec![]), "");
}
