use carbide_rvs::client::{
    firmware_record, IbInterface, IbStatus, Label, Machine, Metadata, NvlinkInfo, Rack, RackData,
    RackFirmware, RackFirmwareData, TrayData,
};
use carbide_rvs::error::RvsError;
use carbide_rvs::json::{parse, text_member};

fn label(key: &str, value: Option<&str>) -> Label {
    Label { key: key.to_string(), value: value.map(|v| v.to_string()) }
}

fn iface(lid: Option<u32>, fabric_id: Option<&str>) -> IbInterface {
    IbInterface { lid, fabric_id: fabric_id.map(|f| f.to_string()) }
}

fn bare() -> Machine {
    Machine { id: None, metadata: None, nvlink_info: None, ib_status: None }
}

#[test]
fn a_bare_machine_gives_an_empty_tray() {
    let tray = TrayData::from(bare());
    assert_eq!(tray.id, "");
    assert_eq!(tray.rv_labels.len(), 0);
    assert!(tray.nvl.is_none());
    assert!(tray.ib.is_none());
}

#[test]
fn a_tray_has_the_valued_rv_labels() {
    let mut machine = bare();
    machine.id = Some("fm100".to_string());
    machine.metadata = Some(Metadata {
        name: "n".to_string(),
        description: "d".to_string(),
        labels: vec![
            label("owner", Some("ops")),
            label("rv.st", Some("pass")),
            label("rv.none", None),
            label("rv.st", Some("fail")),
            label("rv", Some("x")),
        ],
    });
    let tray = TrayData::from(machine);
    assert_eq!(tray.id, "fm100");
    assert_eq!(tray.rv_labels.len(), 1);
    assert_eq!(tray.rv_labels.get("rv.st").unwrap(), "fail");
}

#[test]
fn a_tray_counts_gpus_and_ports() {
    let mut machine = bare();
    machine.nvlink_info =
        Some(NvlinkInfo { domain_uuid: Some("dom".to_string()), gpus: 4 });
    machine.ib_status = Some(IbStatus {
        ib_interfaces: vec![
            iface(Some(7), Some("fab-a")),
            iface(Some(0), None),
            iface(Some(0xffff), Some("fab-b")),
            iface(None, None),
            iface(Some(0xfffe), Some("fab-a")),
        ],
    });
    let tray = TrayData::from(machine);
    let nvl = tray.nvl.unwrap();
    assert_eq!(nvl.domain_uuid.unwrap(), "dom");
    assert_eq!(nvl.gpu_count, 4);
    let ib = tray.ib.unwrap();
    assert_eq!(ib.port_count, 5);
    assert_eq!(ib.active_port_count, 2);
    assert_eq!(ib.fabric_ids, vec!["fab-a", "fab-b", "fab-a"]);
    assert!(ib.active_port_count <= ib.port_count);
}

#[test]
fn a_rack_keeps_id_state_and_trays() {
    let rack = RackData::from(Rack {
        id: Some("r1".to_string()),
        rack_state: "Ready".to_string(),
        compute_trays: vec!["t1".to_string(), "t2".to_string()],
    });
    assert_eq!(rack.id, "r1");
    assert_eq!(rack.state, "Ready");
    assert_eq!(rack.compute_tray_ids, vec!["t1", "t2"]);
    let nameless =
        RackData::from(Rack { id: None, rack_state: String::new(), compute_trays: vec![] });
    assert_eq!(nameless.id, "");
}

#[test]
fn a_firmware_record_holds_its_document() {
    let record = RackFirmwareData::try_from(RackFirmware {
        id: "fw".to_string(),
        config_json: r#"{"Name": "1.2.5", "Parts": [1, 2]}"#.to_string(),
    })
    .unwrap();
    assert_eq!(record.id, "fw");
    assert_eq!(text_member(&record.config, "Name"), Some("1.2.5"));
    assert_eq!(text_member(&record.config, "Parts"), None);
    assert_eq!(text_member(&record.config, "Other"), None);
    assert_eq!(record.config["Parts"][1], serde_json::Value::from(2));
}

#[test]
fn a_broken_document_is_an_invalid_argument() {
    let result = RackFirmwareData::try_from(RackFirmware {
        id: "fw".to_string(),
        config_json: "{".to_string(),
    });
    match result {
        Err(RvsError::InvalidArg(m)) => {
            assert_eq!(m, "invalid SOT JSON: EOF while parsing an object at line 1 column 1")
        }
        _ => panic!("expected an invalid argument"),
    }
    match firmware_record("x".to_string(), Err("why".to_string())) {
        Err(RvsError::InvalidArg(m)) => assert_eq!(m, "invalid SOT JSON: why"),
        _ => panic!("expected an invalid argument"),
    }
}

#[test]
fn text_members_are_those_of_objects() {
    assert_eq!(text_member(&parse(r#""Name""#).unwrap(), "Name"), None);
    assert_eq!(text_member(&parse(r#"["Name"]"#).unwrap(), "Name"), None);
    assert_eq!(text_member(&parse(r#"{"Name": "a", "Name": "b"}"#).unwrap(), "Name"), Some("b"));
    assert!(parse("nul").is_err());
}
