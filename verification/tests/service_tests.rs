use carbide_rvs::ctx::{ArtifactCacheConfig, Config, RvsCtx};
use carbide_rvs::scenario::{OsImage, RackTarget, Scenario};
use carbide_rvs::service::{
    after_accept, http_ok, liveness_response, AcceptAction, CycleAction, CycleEvent, CycleState,
};
use carbide_rvs::text::{push_decimal, same_text, to_hex};

fn ctx() -> RvsCtx {
    RvsCtx {
        scenarios: vec![Scenario {
            rack: RackTarget { model: "m".to_string(), sot_release: "r".to_string() },
            os: OsImage { uri: "os".to_string() },
            artifacts: vec![],
            setup: vec![],
            test: vec![],
            teardown: vec![],
        }],
        cfg: Config {
            poll_interval_secs: 30,
            artifact_cache: ArtifactCacheConfig {
                cache_dir: "c".to_string(),
                max_concurrent_downloads: 1,
                download_timeout_secs: 1,
                serve_port: 1,
            },
        },
        sot_override_path: None,
    }
}

#[test]
fn the_liveness_answer_is_complete() {
    assert_eq!(
        liveness_response(),
        "HTTP/1.1 200 OK\r\nContent-Length: 19\r\n\r\ncarbide-rvs: alive\n"
    );
    assert_eq!(http_ok(""), "HTTP/1.1 200 OK\r\nContent-Length: 0\r\n\r\n");
    assert_eq!(http_ok("é"), "HTTP/1.1 200 OK\r\nContent-Length: 2\r\n\r\né");
}

#[test]
fn a_failed_accept_is_retried() {
    assert_eq!(after_accept(true), AcceptAction::Answer);
    assert_eq!(after_accept(false), AcceptAction::RetryAfter { secs: 1 });
}

#[test]
fn a_cycle_deals_with_every_job() {
    let ctx = ctx();
    let mut state = CycleState::start();
    let mut log = vec![];
    for _ in 0..11 {
        let event = match state.action(&ctx) {
            CycleAction::StartCacheServer => {
                log.push("start".to_string());
                CycleEvent::Done
            }
            CycleAction::FetchRacks => {
                log.push("fetch".to_string());
                CycleEvent::Done
            }
            CycleAction::ProcessArtifacts => {
                log.push("artifacts".to_string());
                CycleEvent::Done
            }
            CycleAction::Plan { os_uri } => {
                log.push(format!("plan {}", os_uri));
                CycleEvent::Planned { jobs: 2 }
            }
            CycleAction::Validate { job } => {
                log.push(format!("validate {}", job));
                CycleEvent::Done
            }
            CycleAction::Submit { job } => {
                log.push(format!("submit {}", job));
                CycleEvent::Done
            }
            CycleAction::Sleep { secs } => {
                log.push(format!("sleep {}", secs));
                CycleEvent::Done
            }
        };
        state = state.next::<String>(Ok(event)).unwrap();
    }
    assert_eq!(
        log,
        vec![
            "start", "fetch", "artifacts", "plan os", "validate 0", "submit 0", "validate 1",
            "submit 1", "sleep 30", "fetch", "artifacts",
        ]
    );
}

#[test]
fn an_empty_plan_goes_to_sleep() {
    let next = CycleState::Plan.next::<String>(Ok(CycleEvent::Planned { jobs: 0 }));
    assert_eq!(next, Ok(CycleState::Sleep));
}

#[test]
fn a_failure_stops_the_service_with_its_error() {
    for (i, state) in [
        CycleState::StartServer,
        CycleState::FetchRacks,
        CycleState::ProcessArtifacts,
        CycleState::Plan,
        CycleState::Validate { job: 0, jobs: 1 },
        CycleState::Submit { job: 0, jobs: 1 },
        CycleState::Sleep,
    ]
    .into_iter()
    .enumerate()
    {
        let error = format!("step {}", i);
        assert_eq!(state.next(Err(error.clone())), Err(error));
    }
}

#[test]
fn numbers_are_printed() {
    let mut out = "n=".to_string();
    push_decimal(&mut out, 0);
    push_decimal(&mut out, 18446744073709551615);
    assert_eq!(out, "n=018446744073709551615");
    assert_eq!(to_hex(&vec![0x00, 0x9a, 0xff]), "009aff");
    assert_eq!(to_hex(&vec![]), "");
}

#[test]
fn texts_are_compared() {
    assert!(same_text("", ""));
    assert!(same_text("é", "é"));
    assert!(!same_text("a", "b"));
    assert!(!same_text("a", "ab"));
}
