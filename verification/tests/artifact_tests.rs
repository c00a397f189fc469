use carbide_rvs::artifact::{
    after_join, find_release, override_record, select_sot, sot_source, task_result, JoinAction,
    SotSource, TaskOutcome,
};
use carbide_rvs::client::{RackFirmware, RackFirmwareData};
use carbide_rvs::ctx::{ArtifactCacheConfig, Config, RvsCtx};
use carbide_rvs::error::RvsError;
use carbide_rvs::json::text_member;
use carbide_rvs::scenario::{OsImage, RackTarget, Scenario};

fn scenario(release: &str) -> Scenario {
    Scenario {
        rack: RackTarget { model: "gb200nvl".to_string(), sot_release: release.to_string() },
        os: OsImage { uri: String::new() },
        artifacts: vec![],
        setup: vec![],
        test: vec![],
        teardown: vec![],
    }
}

fn ctx(scenarios: Vec<Scenario>, path: Option<&str>) -> RvsCtx {
    RvsCtx {
        scenarios,
        cfg: Config {
            poll_interval_secs: 60,
            artifact_cache: ArtifactCacheConfig {
                cache_dir: "cache".to_string(),
                max_concurrent_downloads: 4,
                download_timeout_secs: 10,
                serve_port: 8080,
            },
        },
        sot_override_path: path.map(|p| p.to_string()),
    }
}

fn record(id: &str, json: &str) -> RackFirmwareData {
    RackFirmwareData::try_from(RackFirmware { id: id.to_string(), config_json: json.to_string() })
        .unwrap()
}

#[test]
fn the_override_file_comes_first() {
    match sot_source(&ctx(vec![scenario("1.2.5")], Some("sot.json"))) {
        Ok(SotSource::File(p)) => assert_eq!(p, "sot.json"),
        _ => panic!("expected the file"),
    }
}

#[test]
fn the_first_scenario_names_the_release() {
    match sot_source(&ctx(vec![scenario("1.2.5"), scenario("9.9")], None)) {
        Ok(SotSource::Release(r)) => assert_eq!(r, "1.2.5"),
        _ => panic!("expected the release"),
    }
}

#[test]
fn without_scenarios_there_is_no_release() {
    match sot_source(&ctx(vec![], None)) {
        Err(RvsError::InvalidArg(m)) => assert_eq!(m, "fetch_sot: no scenarios loaded"),
        _ => panic!("expected an invalid argument"),
    }
}

#[test]
fn the_override_file_is_parsed() {
    let read = override_record(Ok(r#"{"Name":"x"}"#.to_string())).unwrap();
    assert_eq!(read.id, "override");
    assert_eq!(text_member(&read.config, "Name"), Some("x"));
    match override_record(Err("no such file".to_string())) {
        Err(RvsError::InvalidArg(m)) => {
            assert_eq!(m, "failed to read SOT override: no such file")
        }
        _ => panic!("expected an invalid argument"),
    }
    match override_record(Ok("]".to_string())) {
        Err(RvsError::InvalidArg(m)) => {
            assert_eq!(m, "invalid SOT JSON: expected value at line 1 column 1")
        }
        _ => panic!("expected an invalid argument"),
    }
}

#[test]
fn the_first_record_of_the_release_is_selected() {
    let records = vec![
        record("a", r#"{"Name": "1.0"}"#),
        record("b", r#"{"Name": 125}"#),
        record("c", r#"{"Name": "1.2.5"}"#),
        record("d", r#"{"Name": "1.2.5"}"#),
        record("e", "null"),
    ];
    assert_eq!(select_sot(records, "1.2.5").unwrap().id, "c");
}

#[test]
fn an_unknown_release_is_reported() {
    match select_sot(vec![record("a", r#"{"Name": "1.0"}"#)], "2.0") {
        Err(RvsError::InvalidArg(m)) => {
            assert_eq!(m, "fetch_sot: no SOT record found for release '2.0'")
        }
        _ => panic!("expected an invalid argument"),
    }
}

#[test]
fn the_first_matching_name_is_found() {
    let names = vec![None, Some("a".to_string()), Some("b".to_string()), Some("b".to_string())];
    assert_eq!(find_release(&names, "b"), Some(2));
    assert_eq!(find_release(&names, "c"), None);
    assert_eq!(find_release(&vec![], "c"), None);
}

#[test]
fn download_tasks_end_in_three_ways() {
    assert!(task_result(TaskOutcome::Finished(Ok(()))).is_ok());
    assert!(matches!(
        task_result(TaskOutcome::Finished(Err(RvsError::Io("x".to_string())))),
        Err(RvsError::Io(_))
    ));
    match task_result(TaskOutcome::TimedOut { url: "http://h/f".to_string() }) {
        Err(RvsError::Timeout(m)) => assert_eq!(m, "download timed out: http://h/f"),
        _ => panic!("expected a timeout"),
    }
    match task_result(TaskOutcome::Panicked { error: "boom".to_string() }) {
        Err(RvsError::InvalidArg(m)) => assert_eq!(m, "download task panicked: boom"),
        _ => panic!("expected an invalid argument"),
    }
}

#[test]
fn the_first_failed_task_ends_the_downloads() {
    assert!(matches!(after_join(Some(TaskOutcome::Finished(Ok(())))), JoinAction::Wait));
    assert!(matches!(after_join(None), JoinAction::Finish(Ok(()))));
    assert!(matches!(
        after_join(Some(TaskOutcome::TimedOut { url: "u".to_string() })),
        JoinAction::Finish(Err(RvsError::Timeout(_)))
    ));
}
