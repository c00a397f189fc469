use carbide_rvs::client::{Label, Machine, Metadata, Rack, RackData, RackFirmware, TrayData};
use carbide_rvs::error::RvsError;
use carbide_rvs::ids::parse_id;
use carbide_rvs::json::text_member;
use carbide_rvs::label::LabelMap;
use carbide_rvs::nicc::{
    all_racks_request, allocated_instance_id, firmware_list_request, firmware_records,
    firmware_request, instance_allocation_request, instances_request, instances_request_from,
    label_update_request, machines_request_from, racks_from, MachineFetch, OsVariant,
};

fn machine(id: &str, labels: Vec<Label>) -> Machine {
    Machine {
        id: Some(id.to_string()),
        metadata: Some(Metadata {
            name: "host".to_string(),
            description: "a host".to_string(),
            labels,
        }),
        nvlink_info: None,
        ib_status: None,
    }
}

fn label(key: &str, value: Option<&str>) -> Label {
    Label { key: key.to_string(), value: value.map(|v| v.to_string()) }
}

fn updates(pairs: &[(&str, &str)]) -> LabelMap {
    let mut m = LabelMap::new();
    for (k, v) in pairs {
        m.insert(k.to_string(), v.to_string());
    }
    m
}

#[test]
fn racks_are_asked_for_and_converted() {
    assert!(all_racks_request().id.is_none());
    let racks = racks_from(vec![
        Rack { id: Some("a".to_string()), rack_state: "s".to_string(), compute_trays: vec![] },
        Rack { id: None, rack_state: "t".to_string(), compute_trays: vec!["x".to_string()] },
    ]);
    assert_eq!(racks.len(), 2);
    assert_eq!(racks[0].id, "a");
    assert_eq!(racks[1].state, "t");
    assert_eq!(racks[1].compute_tray_ids, vec!["x"]);
}

#[test]
fn firmware_is_asked_for() {
    assert_eq!(firmware_request("fw-7").id, "fw-7");
    assert!(!firmware_list_request().only_available);
}

#[test]
fn firmware_records_fail_with_the_first_broken_one() {
    let good = || RackFirmware { id: "g".to_string(), config_json: r#"{"Name":"n"}"#.to_string() };
    let bad = |t: &str| RackFirmware { id: "b".to_string(), config_json: t.to_string() };
    let records = firmware_records(vec![good(), good()]).unwrap();
    assert_eq!(records.len(), 2);
    assert_eq!(text_member(&records[1].config, "Name"), Some("n"));
    match firmware_records(vec![good(), bad(""), bad("{")]) {
        Err(RvsError::InvalidArg(m)) => {
            assert_eq!(m, "invalid SOT JSON: EOF while parsing a value at line 1 column 0")
        }
        _ => panic!("expected an invalid argument"),
    }
    assert!(firmware_records(vec![]).unwrap().is_empty());
}

#[test]
fn machines_are_asked_for_by_their_parsed_ids() {
    let request = machines_request_from(vec![Ok("t-2".to_string()), Ok("t-1".to_string())]).unwrap();
    assert_eq!(request.machine_ids, vec!["t-2", "t-1"]);
    assert!(!request.include_history);
    let request = machines_request_from(vec![]).unwrap();
    assert!(request.machine_ids.is_empty());
}

#[test]
fn the_first_bad_machine_id_is_reported() {
    let parsed = vec![Ok("t-1".to_string()), Err("a".to_string()), Err("b".to_string())];
    match machines_request_from(parsed) {
        Err(RvsError::InvalidId(m)) => assert_eq!(m, "a"),
        _ => panic!("expected an invalid id"),
    }
}

fn sorted(labels: &[Label]) -> Vec<(String, Option<String>)> {
    let mut pairs: Vec<(String, Option<String>)> =
        labels.iter().map(|l| (l.key.clone(), l.value.clone())).collect();
    pairs.sort();
    pairs
}

fn pair(key: &str, value: Option<&str>) -> (String, Option<String>) {
    (key.to_string(), value.map(|v| v.to_string()))
}

fn parsed(id: &str) -> Result<String, String> {
    Ok(id.to_string())
}

#[test]
fn a_label_update_keeps_the_other_labels() {
    let before = machine(
        "t-1",
        vec![
            label("owner", Some("ops")),
            label("unset", None),
            label("empty", Some("")),
            label("rv.st", Some("pass")),
            label("rv.old", Some("1")),
            label("rv.unset", None),
        ],
    );
    let request =
        label_update_request(" t-1", parsed("t-1"), vec![before], &updates(&[("rv.st", "fail")]))
            .unwrap();
    assert_eq!(request.machine_id.unwrap(), "t-1");
    assert!(request.if_version_match.is_none());
    let metadata = request.metadata.unwrap();
    assert_eq!(metadata.name, "");
    assert_eq!(metadata.description, "");
    assert_eq!(
        sorted(&metadata.labels),
        vec![
            pair("empty", Some("")),
            pair("owner", Some("ops")),
            pair("rv.st", Some("fail")),
            pair("unset", None),
        ]
    );
    let after = TrayData::from(machine("t-1", metadata.labels));
    assert_eq!(after.rv_labels, updates(&[("rv.st", "fail")]));
}

#[test]
fn the_last_label_of_a_key_is_sent() {
    let before = machine(
        "t-1",
        vec![
            label("a", Some("1")),
            label("b", None),
            label("a", None),
            label("b", Some("2")),
            label("c", Some("3")),
            label("c", Some("4")),
        ],
    );
    let request = label_update_request("t-1", parsed("t-1"), vec![before], &updates(&[])).unwrap();
    assert_eq!(
        sorted(&request.metadata.unwrap().labels),
        vec![pair("a", None), pair("b", Some("2")), pair("c", Some("4"))]
    );
}

#[test]
fn an_update_sets_an_unset_label() {
    let before = machine("t-1", vec![label("rv.a", None), label("b", None)]);
    let set = updates(&[("rv.a", "1"), ("b", "")]);
    let request = label_update_request("t-1", parsed("t-1"), vec![before], &set).unwrap();
    assert_eq!(
        sorted(&request.metadata.unwrap().labels),
        vec![pair("b", Some("")), pair("rv.a", Some("1"))]
    );
}

#[test]
fn a_tray_carries_the_rv_labels_that_are_set() {
    let tray = TrayData::from(machine(
        "t",
        vec![
            label("rv.a", Some("1")),
            label("rv.b", None),
            label("c", Some("3")),
            label("rv.a", Some("2")),
        ],
    ));
    assert_eq!(tray.rv_labels, updates(&[("rv.a", "2")]));
    let tray = TrayData::from(machine("t", vec![label("rv.a", Some("1")), label("rv.a", None)]));
    assert_eq!(tray.rv_labels, updates(&[("rv.a", "1")]));
}

#[test]
fn a_machine_without_metadata_gets_the_updates() {
    let mut bare = machine("t", vec![]);
    bare.metadata = None;
    let set = updates(&[("rv.a", "1")]);
    let request = label_update_request("t", parsed("t"), vec![bare], &set).unwrap();
    assert_eq!(request.metadata.unwrap().labels.len(), 1);
}

#[test]
fn a_label_update_needs_exactly_one_machine() {
    for n in [0usize, 2] {
        let machines = (0..n).map(|_| machine("t-1", vec![])).collect();
        match label_update_request("t-1", parsed("t-1"), machines, &updates(&[])) {
            Err(RvsError::UnexpectedMachineCount { tray_id, count }) => {
                assert_eq!(tray_id, "t-1");
                assert_eq!(count, n);
            }
            _ => panic!("expected an unexpected count"),
        }
    }
}

#[test]
fn a_label_update_needs_a_machine_id() {
    let bad = || Err("bad".to_string());
    match label_update_request("t-1", bad(), vec![machine("t-1", vec![])], &updates(&[])) {
        Err(RvsError::InvalidId(m)) => assert_eq!(m, "bad"),
        _ => panic!("expected an invalid id"),
    }
    match label_update_request("t-1", bad(), vec![], &updates(&[])) {
        Err(RvsError::UnexpectedMachineCount { count, .. }) => assert_eq!(count, 0),
        _ => panic!("expected an unexpected count"),
    }
}

#[test]
fn an_instance_is_allocated_with_the_nil_image() {
    let request = instance_allocation_request(Ok("m-1".to_string())).unwrap();
    assert_eq!(request.machine_id.unwrap(), "m-1");
    let os = request.config.unwrap().os.unwrap();
    match os.variant.unwrap() {
        OsVariant::OsImageId(id) => assert_eq!(id, "00000000-0000-0000-0000-000000000000"),
    }
    assert!(!os.phone_home_enabled);
    assert!(!os.run_provisioning_instructions_on_every_boot);
    assert!(os.user_data.is_none());
    assert!(request.instance_id.is_none());
    assert!(request.instance_type_id.is_none());
    assert!(request.metadata.is_none());
    assert!(!request.allow_unhealthy_machine);
    assert_eq!(allocated_instance_id(Some("i-1".to_string())), "i-1");
    assert_eq!(allocated_instance_id(None), "");
}

#[test]
fn an_instance_needs_a_machine_id() {
    match instance_allocation_request(Err("bad".to_string())) {
        Err(RvsError::InvalidId(m)) => assert_eq!(m, "bad"),
        _ => panic!("expected an invalid id"),
    }
}

#[test]
fn instance_ids_are_uuids() {
    let ids = vec![
        "550e8400-e29b-41d4-a716-446655440000".to_string(),
        "00000000000000000000000000000001".to_string(),
    ];
    let request = instances_request(&ids).unwrap();
    assert_eq!(request.instance_ids, vec![0x550e8400_e29b_41d4_a716_446655440000u128, 1]);
    assert_eq!(parse_id("00000000-0000-0000-0000-00000000000a"), Ok(10));
}

#[test]
fn the_first_bad_instance_id_is_reported() {
    let ids = vec![
        "00000000-0000-0000-0000-000000000000".to_string(),
        "".to_string(),
        "zzz".to_string(),
    ];
    match instances_request(&ids) {
        Err(RvsError::InvalidId(m)) => assert_eq!(m, "invalid length: found 0"),
        _ => panic!("expected an invalid id"),
    }
    match instances_request_from(vec![Ok(1), Err("a".to_string()), Err("b".to_string())]) {
        Err(RvsError::InvalidId(m)) => assert_eq!(m, "a"),
        _ => panic!("expected an invalid id"),
    }
}

#[test]
fn machines_are_fetched_in_chunks() {
    let ids: Vec<String> = (0..120).map(|i| format!("t{}", i)).collect();
    let rack = RackData {
        id: "r".to_string(),
        state: "s".to_string(),
        compute_tray_ids: ids.clone(),
    };
    let mut fetch = MachineFetch::new(&rack);
    let mut sizes = vec![];
    let mut asked = vec![];
    while let Some(chunk) = fetch.next_ids() {
        sizes.push(chunk.len());
        let machines = chunk.iter().map(|id| machine(id, vec![])).collect();
        asked.extend(chunk);
        fetch.receive(machines);
    }
    assert_eq!(sizes, vec![50, 50, 20]);
    assert_eq!(asked, ids);
    let trays: Vec<String> = fetch.finish().into_iter().map(|t| t.id).collect();
    assert_eq!(trays, ids);
}

#[test]
fn a_rack_without_trays_has_no_ids_to_ask_for() {
    let rack =
        RackData { id: String::new(), state: String::new(), compute_tray_ids: vec![] };
    let fetch = MachineFetch::new(&rack);
    assert!(fetch.next_ids().is_none());
    assert!(fetch.finish().is_empty());
}

#[test]
fn an_answer_may_leave_machines_out() {
    let rack = RackData {
        id: String::new(),
        state: String::new(),
        compute_tray_ids: vec!["a".to_string(), "b".to_string()],
    };
    let mut fetch = MachineFetch::new(&rack);
    fetch.receive(vec![machine("b", vec![])]);
    assert!(fetch.next_ids().is_none());
    assert_eq!(fetch.finish().len(), 1);
}
