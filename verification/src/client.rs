//! What the inventory API returns and what the service makes of it.

use crate::error::{invalid_arg, ErrorView, RvsError};
use crate::json::{json_parse, json_view, parse, Json};
use crate::label::{
    all_rv, collect, is_rv, is_rv_key, law_rv_keys_are_rv_dot_and_any_text, LabelMap,
};
use crate::seqs::{lemma_filter_none, lemma_filter_take};
use crate::text::{text_of, texts};
use vstd::prelude::*;
use vstd::string::*;

verus! {

/// A label of a machine as the API holds it.
#[derive(Debug)]
pub struct Label {
    pub key: String,
    pub value: Option<String>,
}

/// The metadata of a machine.
#[derive(Debug)]
pub struct Metadata {
    pub name: String,
    pub description: String,
    pub labels: Vec<Label>,
}

/// The NVLink section of a machine.
#[derive(Debug)]
pub struct NvlinkInfo {
    /// The NVL domain in printed form.
    pub domain_uuid: Option<String>,
    /// How many GPUs are listed.
    pub gpus: usize,
}

/// One InfiniBand interface of a machine.
#[derive(Debug)]
pub struct IbInterface {
    pub lid: Option<u32>,
    pub fabric_id: Option<String>,
}

/// The InfiniBand section of a machine.
#[derive(Debug)]
pub struct IbStatus {
    pub ib_interfaces: Vec<IbInterface>,
}

/// A machine as the API returns it.
#[derive(Debug)]
pub struct Machine {
    /// The machine ID in printed form.
    pub id: Option<String>,
    pub metadata: Option<Metadata>,
    pub nvlink_info: Option<NvlinkInfo>,
    pub ib_status: Option<IbStatus>,
}

/// A rack as the API returns it.
#[derive(Debug)]
pub struct Rack {
    /// The rack ID in printed form.
    pub id: Option<String>,
    pub rack_state: String,
    /// The machine IDs of the compute trays in printed form.
    pub compute_trays: Vec<String>,
}

/// A rack firmware record as the API returns it.
#[derive(Debug)]
pub struct RackFirmware {
    pub id: String,
    pub config_json: String,
}

/// NVLink fields of a tray.
#[derive(Debug)]
pub struct TrayNvlData {
    /// NVL domain this tray belongs to.
    pub domain_uuid: Option<String>,
    /// GPU count reported via NVLink info.
    pub gpu_count: u32,
}

/// InfiniBand fields of a tray.
#[derive(Debug)]
pub struct TrayIbData {
    /// Fabric IDs observed across the IB interfaces, used as partition keys.
    pub fabric_ids: Vec<String>,
    /// All IB interfaces of the machine.
    pub port_count: u32,
    /// The IB interfaces with an active LID.
    pub active_port_count: u32,
}

/// A compute tray.
#[derive(Debug)]
pub struct TrayData {
    /// Machine ID as a string.
    pub id: String,
    /// Rack-validation labels (`rv.*`) from the machine metadata.
    pub rv_labels: LabelMap,
    /// NVLink data, if the machine has NVLink info.
    pub nvl: Option<TrayNvlData>,
    /// InfiniBand data, if the machine has an IB status.
    pub ib: Option<TrayIbData>,
}

/// A rack.
#[derive(Debug)]
pub struct RackData {
    /// Rack ID as a string.
    pub id: String,
    /// Rack lifecycle state.
    pub state: String,
    /// Machine IDs of the compute trays in this rack.
    pub compute_tray_ids: Vec<String>,
}

/// A rack firmware record with its SOT document.
#[derive(Debug)]
pub struct RackFirmwareData {
    /// Firmware record ID.
    pub id: String,
    /// Parsed SOT document, from which artifact URLs are resolved.
    pub config: serde_json::Value,
}

/// [`TrayNvlData`] by its contents.
pub struct NvlView {
    pub domain_uuid: Option<Seq<char>>,
    pub gpu_count: u32,
}

/// [`TrayIbData`] by its contents.
pub struct IbView {
    pub fabric_ids: Seq<Seq<char>>,
    pub port_count: u32,
    pub active_port_count: u32,
}

/// [`TrayData`] by its contents.
pub struct TrayView {
    pub id: Seq<char>,
    pub rv_labels: Map<Seq<char>, Seq<char>>,
    pub nvl: Option<NvlView>,
    pub ib: Option<IbView>,
}

/// [`RackData`] by its contents.
pub struct RackView {
    pub id: Seq<char>,
    pub state: Seq<char>,
    pub compute_tray_ids: Seq<Seq<char>>,
}

/// [`RackFirmwareData`] by its contents.
pub struct FirmwareView {
    pub id: Seq<char>,
    pub config: Json,
}

impl View for TrayNvlData {
    type V = NvlView;

    open spec fn view(&self) -> NvlView {
        NvlView { domain_uuid: text_of(self.domain_uuid), gpu_count: self.gpu_count }
    }
}

impl View for TrayIbData {
    type V = IbView;

    open spec fn view(&self) -> IbView {
        IbView {
            fabric_ids: texts(self.fabric_ids@),
            port_count: self.port_count,
            active_port_count: self.active_port_count,
        }
    }
}

impl View for TrayData {
    type V = TrayView;

    open spec fn view(&self) -> TrayView {
        TrayView {
            id: self.id@,
            rv_labels: self.rv_labels@,
            nvl: match self.nvl {
                Some(n) => Some(n@),
                None => None,
            },
            ib: match self.ib {
                Some(b) => Some(b@),
                None => None,
            },
        }
    }
}

impl View for RackData {
    type V = RackView;

    open spec fn view(&self) -> RackView {
        RackView {
            id: self.id@,
            state: self.state@,
            compute_tray_ids: texts(self.compute_tray_ids@),
        }
    }
}

impl View for RackFirmwareData {
    type V = FirmwareView;

    open spec fn view(&self) -> FirmwareView {
        FirmwareView { id: self.id@, config: json_view(self.config) }
    }
}

/// The text of an optional string, or the empty text where there is none.
pub open spec fn or_empty(text: Option<String>) -> Seq<char> {
    match text {
        Some(t) => t@,
        None => Seq::empty(),
    }
}

/// Whether an interface has an active LID: one that is neither zero nor the
/// unassigned value.
pub open spec fn is_active(iface: IbInterface) -> bool {
    iface.lid matches Some(lid) && lid != 0 && lid != 0xffff
}

/// How many interfaces are active.
pub open spec fn active_count(interfaces: Seq<IbInterface>) -> nat {
    interfaces.filter(|i: IbInterface| is_active(i)).len()
}

/// The fabric IDs of the interfaces that have one, in order.
pub open spec fn fabric_ids(interfaces: Seq<IbInterface>) -> Seq<Seq<char>> {
    interfaces.filter(|i: IbInterface| i.fabric_id is Some).map_values(
        |i: IbInterface| i.fabric_id->0@,
    )
}

/// The labels that have an `rv.*` key and a value, in order.
pub open spec fn rv_pairs(labels: Seq<Label>) -> Seq<(Seq<char>, Seq<char>)> {
    labels.filter(|l: Label| is_rv(l.key@) && l.value is Some).map_values(
        |l: Label| (l.key@, l.value->0@),
    )
}

/// The InfiniBand data of a tray.
pub open spec fn ib_of(status: IbStatus) -> IbView {
    IbView {
        fabric_ids: fabric_ids(status.ib_interfaces@),
        port_count: status.ib_interfaces@.len() as u32,
        active_port_count: active_count(status.ib_interfaces@) as u32,
    }
}

/// The tray that a machine stands for. Counts beyond 32 bits are cut to their
/// lower 32 bits.
pub open spec fn tray_of(machine: Machine) -> TrayView {
    TrayView {
        id: or_empty(machine.id),
        rv_labels: match machine.metadata {
            Some(m) => collect(rv_pairs(m.labels@)),
            None => Map::empty(),
        },
        nvl: match machine.nvlink_info {
            Some(n) => Some(
                NvlView { domain_uuid: text_of(n.domain_uuid), gpu_count: n.gpus as u32 },
            ),
            None => None,
        },
        ib: match machine.ib_status {
            Some(s) => Some(ib_of(s)),
            None => None,
        },
    }
}

/// The rack that an API rack stands for.
pub open spec fn rack_of(rack: Rack) -> RackView {
    RackView {
        id: or_empty(rack.id),
        state: rack.rack_state@,
        compute_tray_ids: texts(rack.compute_trays@),
    }
}

/// Counts the interfaces with an active LID.
fn count_active(interfaces: &Vec<IbInterface>) -> (n: usize)
    ensures
        n == active_count(interfaces@),
        n <= interfaces@.len(),
{
    let ghost p = |i: IbInterface| is_active(i);
    let mut n: usize = 0;
    let mut i: usize = 0;
    proof {
        lemma_filter_none(interfaces@, p);
    }
    while i < interfaces.len()
        invariant
            i <= interfaces@.len(),
            n <= i,
            p == |i: IbInterface| is_active(i),
            n == interfaces@.take(i as int).filter(p).len(),
        decreases interfaces@.len() - i,
    {
        proof {
            lemma_filter_take(interfaces@, p, i as int);
        }
        let active = match interfaces[i].lid {
            Some(lid) => lid != 0 && lid != 0xffff,
            None => false,
        };
        if active {
            n = n + 1;
        }
        i = i + 1;
    }
    assert(interfaces@.take(interfaces@.len() as int) =~= interfaces@);
    n
}

/// The fabric IDs of the interfaces that have one.
fn list_fabric_ids(interfaces: &Vec<IbInterface>) -> (ids: Vec<String>)
    ensures
        texts(ids@) == fabric_ids(interfaces@),
{
    let ghost p = |i: IbInterface| i.fabric_id is Some;
    let ghost f = |i: IbInterface| i.fabric_id->0@;
    let mut ids: Vec<String> = Vec::new();
    let mut i: usize = 0;
    assert(texts(ids@) =~= interfaces@.take(0).filter(p).map_values(f)) by {
        lemma_filter_none(interfaces@, p);
    }
    while i < interfaces.len()
        invariant
            i <= interfaces@.len(),
            p == |i: IbInterface| i.fabric_id is Some,
            f == |i: IbInterface| i.fabric_id->0@,
            texts(ids@) == interfaces@.take(i as int).filter(p).map_values(f),
        decreases interfaces@.len() - i,
    {
        proof {
            lemma_filter_take(interfaces@, p, i as int);
        }
        let ghost before = ids@;
        let ghost kept = interfaces@.take(i as int).filter(p);
        if let Some(id) = &interfaces[i].fabric_id {
            ids.push(id.clone());
            assert(texts(ids@) =~= texts(before).push(id@));
            assert(kept.push(interfaces@[i as int]).map_values(f) =~= kept.map_values(f).push(id@));
        }
        i = i + 1;
    }
    assert(interfaces@.take(interfaces@.len() as int) =~= interfaces@);
    ids
}

/// The `rv.*` labels that have a value.
fn collect_rv_labels(labels: &Vec<Label>) -> (map: LabelMap)
    ensures
        map@ == collect(rv_pairs(labels@)),
{
    let ghost p = |l: Label| is_rv(l.key@) && l.value is Some;
    let ghost f = |l: Label| (l.key@, l.value->0@);
    let mut map = LabelMap::new();
    let mut i: usize = 0;
    proof {
        lemma_filter_none(labels@, p);
    }
    while i < labels.len()
        invariant
            i <= labels@.len(),
            p == |l: Label| is_rv(l.key@) && l.value is Some,
            f == |l: Label| (l.key@, l.value->0@),
            map@ == collect(labels@.take(i as int).filter(p).map_values(f)),
        decreases labels@.len() - i,
    {
        proof {
            lemma_filter_take(labels@, p, i as int);
        }
        let ghost kept = labels@.take(i as int).filter(p);
        if is_rv_key(labels[i].key.as_str()) {
            if let Some(value) = &labels[i].value {
                map.insert(labels[i].key.clone(), value.clone());
                proof {
                    let pair = (labels@[i as int].key@, value@);
                    let after = kept.push(labels@[i as int]).map_values(f);
                    assert(after =~= kept.map_values(f).push(pair));
                    assert(after.drop_last() =~= kept.map_values(f));
                }
            }
        }
        i = i + 1;
    }
    assert(labels@.take(labels@.len() as int) =~= labels@);
    map
}

/// A string or the empty string.
pub fn text_or_empty(text: Option<String>) -> (t: String)
    ensures
        t@ == or_empty(text),
        text is Some ==> t@ == text->0@,
        text is None ==> t@.len() == 0,
{
    match text {
        Some(t) => t,
        None => String::new(),
    }
}

impl From<Machine> for TrayData {
    /// Takes from a machine what a tray needs.
    fn from(value: Machine) -> (tray: TrayData)
        ensures
            tray@ == tray_of(value),
    {
        let nvl = match value.nvlink_info {
            Some(info) => Some(
                TrayNvlData { domain_uuid: info.domain_uuid, gpu_count: info.gpus as u32 },
            ),
            None => None,
        };
        let ib = match &value.ib_status {
            Some(status) => {
                let active = count_active(&status.ib_interfaces);
                Some(
                    TrayIbData {
                        fabric_ids: list_fabric_ids(&status.ib_interfaces),
                        port_count: status.ib_interfaces.len() as u32,
                        active_port_count: active as u32,
                    },
                )
            },
            None => None,
        };
        let rv_labels = match &value.metadata {
            Some(m) => collect_rv_labels(&m.labels),
            None => LabelMap::new(),
        };
        TrayData { id: text_or_empty(value.id), rv_labels, nvl, ib }
    }
}

/// Trays are compared by their contents, so what `from` gives is stated in its own
/// contract.
impl vstd::std_specs::convert::FromSpecImpl<Machine> for TrayData {
    open spec fn obeys_from_spec() -> bool {
        false
    }

    open spec fn from_spec(v: Machine) -> TrayData {
        arbitrary()
    }
}

impl From<Rack> for RackData {
    /// Takes from an API rack what the service needs.
    fn from(value: Rack) -> (rack: RackData)
        ensures
            rack@ == rack_of(value),
    {
        RackData {
            id: text_or_empty(value.id),
            state: value.rack_state,
            compute_tray_ids: value.compute_trays,
        }
    }
}

/// Racks are compared by their contents, so what `from` gives is stated in its own
/// contract.
impl vstd::std_specs::convert::FromSpecImpl<Rack> for RackData {
    open spec fn obeys_from_spec() -> bool {
        false
    }

    open spec fn from_spec(v: Rack) -> RackData {
        arbitrary()
    }
}

/// The record with a given ID whose document is what a parse gave.
pub open spec fn firmware_of(id: Seq<char>, parsed: Result<Json, Seq<char>>) -> Result<
    FirmwareView,
    ErrorView,
> {
    match parsed {
        Ok(config) => Ok(FirmwareView { id, config }),
        Err(e) => Err(ErrorView::InvalidArg("invalid SOT JSON: "@ + e)),
    }
}

/// The outcome of reading a firmware record.
pub open spec fn firmware_view(record: Result<RackFirmwareData, RvsError>) -> Result<
    FirmwareView,
    ErrorView,
> {
    match record {
        Ok(r) => Ok(r@),
        Err(e) => Err(e@),
    }
}

/// The outcome of a parse.
pub open spec fn parsed_view(parsed: Result<serde_json::Value, String>) -> Result<
    Json,
    Seq<char>,
> {
    match parsed {
        Ok(v) => Ok(json_view(v)),
        Err(e) => Err(e@),
    }
}

/// Makes a record of an ID and a parsed document; a document that could not be
/// parsed is an invalid argument.
pub fn firmware_record(id: String, parsed: Result<serde_json::Value, String>) -> (record: Result<
    RackFirmwareData,
    RvsError,
>)
    ensures
        firmware_view(record) == firmware_of(id@, parsed_view(parsed)),
{
    match parsed {
        Ok(config) => Ok(RackFirmwareData { id, config }),
        Err(e) => Err(invalid_arg("invalid SOT JSON: ", e.as_str())),
    }
}

impl TryFrom<RackFirmware> for RackFirmwareData {
    type Error = RvsError;

    /// Parses the document of a firmware record.
    fn try_from(value: RackFirmware) -> (record: Result<RackFirmwareData, RvsError>)
        ensures
            firmware_view(record) == firmware_of(value.id@, json_parse(value.config_json@)),
    {
        let parsed = parse(value.config_json.as_str());
        firmware_record(value.id, parsed)
    }
}

/// Records are compared by their contents, so what `try_from` gives is stated in
/// its own contract.
impl vstd::std_specs::convert::TryFromSpecImpl<RackFirmware> for RackFirmwareData {
    open spec fn obeys_try_from_spec() -> bool {
        false
    }

    open spec fn try_from_spec(v: RackFirmware) -> Result<RackFirmwareData, RvsError> {
        arbitrary()
    }
}

/// The trays by their contents.
pub open spec fn tray_views(trays: Seq<TrayData>) -> Seq<TrayView> {
    trays.map_values(|t: TrayData| t@)
}

/// The trays that machines stand for.
pub open spec fn trays_of(machines: Seq<Machine>) -> Seq<TrayView> {
    machines.map_values(|m: Machine| tray_of(m))
}

/// Appends the trays that `machines` stand for, in order.
pub fn extend_trays(trays: &mut Vec<TrayData>, machines: Vec<Machine>)
    ensures
        tray_views(final(trays)@) == tray_views(old(trays)@) + trays_of(machines@),
{
    let ghost before = tray_views(trays@);
    assert(before + trays_of(machines@.take(0)) =~= before);
    for m in iter: machines
        invariant
            iter.seq() == machines@,
            tray_views(trays@) == before + trays_of(machines@.take(iter.index())),
    {
        let ghost sofar = trays@;
        trays.push(TrayData::from(m));
        proof {
            let k = iter.index();
            assert(m == machines@[k]);
            assert(tray_views(trays@) =~= tray_views(sofar).push(tray_of(m)));
            assert(trays_of(machines@.take(k + 1)) =~= trays_of(machines@.take(k)).push(
                tray_of(m),
            ));
        }
    }
    assert(machines@.take(machines@.len() as int) =~= machines@);
}

/// No more ports are active, and no more fabric IDs are listed, than there are
/// ports, where the number of ports fits 32 bits.
pub proof fn law_ports_bound_active_ports_and_fabrics(status: IbStatus)
    requires
        status.ib_interfaces@.len() <= u32::MAX,
    ensures
        ib_of(status).port_count == status.ib_interfaces@.len(),
        ib_of(status).active_port_count == active_count(status.ib_interfaces@),
        ib_of(status).active_port_count <= ib_of(status).port_count,
        ib_of(status).fabric_ids.len() <= ib_of(status).port_count,
{
    status.ib_interfaces@.lemma_filter_len(|i: IbInterface| is_active(i));
    status.ib_interfaces@.lemma_filter_len(|i: IbInterface| i.fabric_id is Some);
}

/// A tray carries `rv.*` labels alone.
pub proof fn law_tray_labels_are_rv(machine: Machine)
    ensures
        all_rv(tray_of(machine).rv_labels),
{
    if let Some(m) = machine.metadata {
        assert forall|k: Seq<char>| #[trigger]
            tray_of(machine).rv_labels.contains_key(k) implies is_rv(k) by {
            lemma_tray_label_has_source(m.labels@, k);
        }
    }
}

/// The map that labels make: for each key the value of its last label, set or unset.
pub open spec fn label_values(labels: Seq<Label>) -> Map<Seq<char>, Option<Seq<char>>>
    decreases labels.len(),
{
    if labels.len() == 0 {
        Map::empty()
    } else {
        label_values(labels.drop_last()).insert(labels.last().key@, text_of(labels.last().value))
    }
}

/// The label map of a machine, set and unset values alike; empty without metadata.
pub open spec fn machine_labels(machine: Machine) -> Map<Seq<char>, Option<Seq<char>>> {
    match machine.metadata {
        Some(m) => label_values(m.labels@),
        None => Map::empty(),
    }
}

/// Whether no key is listed twice.
pub open spec fn no_label_twice(labels: Seq<Label>) -> bool {
    forall|i: int, j: int|
        0 <= i < j < labels.len() ==> (#[trigger] labels[i]).key@ != (#[trigger] labels[j]).key@
}

/// The keys of a label map are the keys of the labels.
pub(crate) proof fn lemma_label_keys(labels: Seq<Label>, k: Seq<char>)
    ensures
        label_values(labels).contains_key(k) <==> exists|i: int|
            0 <= i < labels.len() && (#[trigger] labels[i]).key@ == k,
    decreases labels.len(),
{
    if labels.len() > 0 {
        let rest = labels.drop_last();
        lemma_label_keys(rest, k);
        if label_values(labels).contains_key(k) {
            if k == labels.last().key@ {
                assert(labels[labels.len() - 1].key@ == k);
            } else {
                let i = choose|i: int| 0 <= i < rest.len() && (#[trigger] rest[i]).key@ == k;
                assert(labels[i].key@ == k);
            }
        }
        if exists|i: int| 0 <= i < labels.len() && (#[trigger] labels[i]).key@ == k {
            let i = choose|i: int| 0 <= i < labels.len() && (#[trigger] labels[i]).key@ == k;
            if i < rest.len() {
                assert(rest[i].key@ == k);
            }
        }
    }
}

/// Where no key is listed twice, every label is an entry of the label map.
pub(crate) proof fn lemma_label_entry(labels: Seq<Label>, i: int)
    requires
        no_label_twice(labels),
        0 <= i < labels.len(),
    ensures
        label_values(labels).contains_key(labels[i].key@),
        label_values(labels)[labels[i].key@] == text_of(labels[i].value),
    decreases labels.len(),
{
    let rest = labels.drop_last();
    if i < rest.len() {
        assert forall|a: int, b: int| 0 <= a < b < rest.len() implies (#[trigger] rest[a]).key@ != (
        #[trigger] rest[b]).key@ by {
            assert(labels[a].key@ != labels[b].key@);
        }
        lemma_label_entry(rest, i);
        assert(rest[i] == labels[i]);
        assert(labels[i].key@ != labels[labels.len() - 1].key@);
    }
}

/// The entries of a label map that have an `rv.*` key and a value.
pub open spec fn set_rv_values(values: Map<Seq<char>, Option<Seq<char>>>) -> Map<
    Seq<char>,
    Seq<char>,
> {
    Map::new(
        |k: Seq<char>| values.contains_key(k) && is_rv(k) && values[k] is Some,
        |k: Seq<char>| values[k]->0,
    )
}

/// Whether no unset `rv.*` label follows on a set one of the same key.
pub open spec fn set_rv_values_last(labels: Seq<Label>) -> bool {
    forall|i: int|
        0 <= i < labels.len() && is_rv((#[trigger] labels[i]).key@) && labels[i].value is Some
            ==> label_values(labels)[labels[i].key@] is Some
}

/// The labels of a tray are the `rv.*` labels of its machine that are set, unless an
/// unset label follows on a set one of the same key: the tray passes over it.
pub proof fn law_tray_labels_are_the_set_rv_labels(machine: Machine)
    requires
        machine.metadata matches Some(m) ==> set_rv_values_last(m.labels@),
    ensures
        tray_of(machine).rv_labels == set_rv_values(machine_labels(machine)),
{
    if let Some(m) = machine.metadata {
        lemma_collected_are_the_set_rv_labels(m.labels@);
    } else {
        assert(tray_of(machine).rv_labels =~= set_rv_values(machine_labels(machine)));
    }
}

/// What is collected from the `rv.*` labels is what is set of them.
proof fn lemma_collected_are_the_set_rv_labels(labels: Seq<Label>)
    requires
        set_rv_values_last(labels),
    ensures
        collect(rv_pairs(labels)) == set_rv_values(label_values(labels)),
{
    let tray = collect(rv_pairs(labels));
    let expected = set_rv_values(label_values(labels));
    assert forall|k: Seq<char>| #[trigger] tray.contains_key(k) implies expected.contains_key(
        k,
    ) by {
        lemma_tray_label_has_source(labels, k);
        let i = choose|i: int|
            0 <= i < labels.len() && (#[trigger] labels[i]).key@ == k && labels[i].value is Some;
        lemma_label_keys(labels, k);
        assert(is_rv(labels[i].key@));
    }
    assert forall|k: Seq<char>| #[trigger] expected.contains_key(k) implies tray.contains_key(k)
        && tray[k] == expected[k] by {
        lemma_set_label_reaches_tray(labels, k);
    }
    assert(tray =~= expected);
}

/// Where no key is listed twice, no unset label follows on a set one.
pub(crate) proof fn lemma_distinct_labels_are_last(labels: Seq<Label>)
    requires
        no_label_twice(labels),
    ensures
        set_rv_values_last(labels),
{
    assert forall|i: int|
        0 <= i < labels.len() && is_rv((#[trigger] labels[i]).key@)
            && labels[i].value is Some implies label_values(labels)[labels[i].key@] is Some by {
        lemma_label_entry(labels, i);
    }
}

/// The `rv.*` labels with one more label.
proof fn lemma_rv_pairs_last(labels: Seq<Label>)
    requires
        labels.len() > 0,
    ensures
        is_rv(labels.last().key@) && labels.last().value is Some ==> rv_pairs(labels) == rv_pairs(
            labels.drop_last(),
        ).push((labels.last().key@, labels.last().value->0@)),
        !(is_rv(labels.last().key@) && labels.last().value is Some) ==> rv_pairs(labels)
            == rv_pairs(labels.drop_last()),
{
    let p = |l: Label| is_rv(l.key@) && l.value is Some;
    let f = |l: Label| (l.key@, l.value->0@);
    let n = labels.len() - 1;
    lemma_filter_take(labels, p, n);
    assert(labels.take(n + 1) =~= labels);
    assert(labels.take(n) =~= labels.drop_last());
    let kept = labels.drop_last().filter(p);
    assert(kept.push(labels[n]).map_values(f) =~= kept.map_values(f).push(f(labels[n])));
}

/// A key of a tray comes from an `rv.*` label that is set.
proof fn lemma_tray_label_has_source(labels: Seq<Label>, k: Seq<char>)
    requires
        collect(rv_pairs(labels)).contains_key(k),
    ensures
        is_rv(k),
        exists|i: int|
            0 <= i < labels.len() && (#[trigger] labels[i]).key@ == k && labels[i].value is Some,
    decreases labels.len(),
{
    if labels.len() > 0 {
        let rest = labels.drop_last();
        let last = labels.last();
        lemma_rv_pairs_last(labels);
        if is_rv(last.key@) && last.value is Some {
            assert(rv_pairs(labels).drop_last() =~= rv_pairs(rest));
        }
        if is_rv(last.key@) && last.value is Some && last.key@ == k {
            assert(labels[labels.len() - 1].key@ == k);
        } else {
            lemma_tray_label_has_source(rest, k);
            let i = choose|i: int|
                0 <= i < rest.len() && (#[trigger] rest[i]).key@ == k && rest[i].value is Some;
            assert(labels[i] == rest[i]);
        }
    } else {
        lemma_filter_none(labels, |l: Label| is_rv(l.key@) && l.value is Some);
        assert(labels.take(0) =~= labels);
        assert(rv_pairs(labels).len() == 0);
    }
}

/// An `rv.*` key whose last label is set has that value in the tray.
proof fn lemma_set_label_reaches_tray(labels: Seq<Label>, k: Seq<char>)
    requires
        is_rv(k),
        label_values(labels).contains_key(k),
        label_values(labels)[k] is Some,
    ensures
        collect(rv_pairs(labels)).contains_key(k),
        collect(rv_pairs(labels))[k] == label_values(labels)[k]->0,
    decreases labels.len(),
{
    let rest = labels.drop_last();
    let last = labels.last();
    lemma_rv_pairs_last(labels);
    if is_rv(last.key@) && last.value is Some {
        assert(rv_pairs(labels).drop_last() =~= rv_pairs(rest));
    }
    if last.key@ != k {
        lemma_set_label_reaches_tray(rest, k);
    }
}

/// A tray has the ID of its machine, or an empty one where the machine has none; it
/// has NVLink or InfiniBand data if and only if the machine has.
pub proof fn law_tray_has_what_its_machine_has(machine: Machine)
    ensures
        machine.id is Some ==> tray_of(machine).id == machine.id->0@,
        machine.id is None ==> tray_of(machine).id.len() == 0,
        machine.nvlink_info is Some <==> tray_of(machine).nvl is Some,
        machine.ib_status is Some <==> tray_of(machine).ib is Some,
        machine.metadata is None ==> tray_of(machine).rv_labels == Map::<
            Seq<char>,
            Seq<char>,
        >::empty(),
{
}

/// The NVLink data of a tray names the domain of its machine, where there is one, and
/// counts all GPUs; a count beyond 32 bits is cut to its lower 32 bits.
pub proof fn law_tray_has_the_nvlink_data_of_its_machine(machine: Machine)
    requires
        machine.nvlink_info is Some,
    ensures
        machine.nvlink_info->0.domain_uuid is None ==> tray_of(machine).nvl->0.domain_uuid is None,
        machine.nvlink_info->0.domain_uuid is Some ==> tray_of(machine).nvl->0.domain_uuid == Some(
            machine.nvlink_info->0.domain_uuid->0@,
        ),
        tray_of(machine).nvl->0.gpu_count == machine.nvlink_info->0.gpus as int % 0x1_0000_0000,
{
    lemma_cut(machine.nvlink_info->0.gpus as nat);
}

/// Every interface of a machine is a port of the tray; a port is active unless it has
/// no LID, LID zero or LID 65535; and its fabric is listed wherever it has one, active
/// or not. What one more interface adds is stated of every machine, so this fixes the
/// counts, which are cut to 32 bits, and the list.
pub proof fn law_one_more_interface(before: Machine, after: Machine, iface: IbInterface)
    requires
        before.ib_status is Some,
        after.ib_status is Some,
        after.ib_status->0.ib_interfaces@ == before.ib_status->0.ib_interfaces@.push(iface),
    ensures
        tray_of(after).ib->0.port_count == (tray_of(before).ib->0.port_count + 1) % 0x1_0000_0000,
        iface.lid is None || iface.lid == Some(0u32) || iface.lid == Some(65535u32) ==> tray_of(
            after,
        ).ib->0.active_port_count == tray_of(before).ib->0.active_port_count,
        iface.lid is Some && iface.lid->0 != 0 && iface.lid->0 != 65535 ==> tray_of(
            after,
        ).ib->0.active_port_count == (tray_of(before).ib->0.active_port_count + 1)
            % 0x1_0000_0000,
        iface.fabric_id is None ==> tray_of(after).ib->0.fabric_ids == tray_of(
            before,
        ).ib->0.fabric_ids,
        iface.fabric_id is Some ==> tray_of(after).ib->0.fabric_ids == tray_of(
            before,
        ).ib->0.fabric_ids.push(iface.fabric_id->0@),
{
    let old_ports = before.ib_status->0.ib_interfaces@;
    let ports = after.ib_status->0.ib_interfaces@;
    assert(after.ib_status->0.ib_interfaces.len() == ports.len());
    lemma_active_count_push(old_ports, iface);
    lemma_fabric_ids_push(old_ports, iface);
    old_ports.lemma_filter_len(|i: IbInterface| is_active(i));
    ports.lemma_filter_len(|i: IbInterface| is_active(i));
    lemma_cut(old_ports.len());
    lemma_cut(ports.len());
    lemma_cut(active_count(old_ports));
    lemma_cut(active_count(ports));
}

/// A count cut to its lower 32 bits is its remainder.
proof fn lemma_cut(n: nat)
    requires
        n <= usize::MAX,
    ensures
        n as u32 == n % 0x1_0000_0000,
{
    let x = n as u64;
    assert(x == n);
    assert(x as u32 == x % 0x1_0000_0000) by (bit_vector);
}

/// A machine without interfaces gives no ports and no fabrics.
pub proof fn law_no_interfaces(machine: Machine)
    requires
        machine.ib_status is Some,
        machine.ib_status->0.ib_interfaces@.len() == 0,
    ensures
        tray_of(machine).ib->0.port_count == 0,
        tray_of(machine).ib->0.active_port_count == 0,
        tray_of(machine).ib->0.fabric_ids.len() == 0,
{
    let ports = machine.ib_status->0.ib_interfaces@;
    ports.lemma_filter_len(|i: IbInterface| is_active(i));
    reveal(Seq::filter);
}

/// How many interfaces have a fabric ID, whatever their LID.
pub open spec fn with_fabric(interfaces: Seq<IbInterface>) -> nat
    decreases interfaces.len(),
{
    if interfaces.len() == 0 {
        0
    } else {
        with_fabric(interfaces.drop_last()) + if interfaces.last().fabric_id is Some {
            1nat
        } else {
            0nat
        }
    }
}

/// A tray has as many fabric IDs as its machine has interfaces with one, whatever
/// their LID, and the ID of an interface stands behind those of the interfaces before
/// it.
pub proof fn law_every_fabric_has_its_place(machine: Machine, k: int)
    requires
        machine.ib_status is Some,
        0 <= k < machine.ib_status->0.ib_interfaces@.len(),
    ensures
        tray_of(machine).ib->0.fabric_ids.len() == with_fabric(
            machine.ib_status->0.ib_interfaces@,
        ),
        machine.ib_status->0.ib_interfaces@[k].fabric_id is Some ==> ({
            let at = with_fabric(machine.ib_status->0.ib_interfaces@.take(k)) as int;
            &&& at < tray_of(machine).ib->0.fabric_ids.len()
            &&& tray_of(machine).ib->0.fabric_ids[at]
                == machine.ib_status->0.ib_interfaces@[k].fabric_id->0@
        }),
{
    lemma_fabric_place(machine.ib_status->0.ib_interfaces@, k);
}

/// The places of fabric IDs, over a list of interfaces.
proof fn lemma_fabric_place(interfaces: Seq<IbInterface>, k: int)
    ensures
        fabric_ids(interfaces).len() == with_fabric(interfaces),
        0 <= k < interfaces.len() && interfaces[k].fabric_id is Some ==> ({
            let at = with_fabric(interfaces.take(k)) as int;
            &&& at < fabric_ids(interfaces).len()
            &&& fabric_ids(interfaces)[at] == interfaces[k].fabric_id->0@
        }),
    decreases interfaces.len(),
{
    if interfaces.len() == 0 {
        reveal(Seq::filter);
    } else {
        let rest = interfaces.drop_last();
        lemma_fabric_place(rest, k);
        lemma_fabric_ids_push(rest, interfaces.last());
        assert(rest.push(interfaces.last()) =~= interfaces);
        if 0 <= k < rest.len() {
            assert(rest.take(k) =~= interfaces.take(k));
            assert(rest[k] == interfaces[k]);
        } else if k == rest.len() {
            assert(interfaces.take(k) =~= rest);
        }
    }
}

/// The fabric IDs with one more interface.
proof fn lemma_fabric_ids_push(interfaces: Seq<IbInterface>, iface: IbInterface)
    ensures
        iface.fabric_id is None ==> fabric_ids(interfaces.push(iface)) == fabric_ids(interfaces),
        iface.fabric_id is Some ==> fabric_ids(interfaces.push(iface)) == fabric_ids(
            interfaces,
        ).push(iface.fabric_id->0@),
{
    reveal(Seq::filter);
    let p = |i: IbInterface| i.fabric_id is Some;
    let f = |i: IbInterface| i.fabric_id->0@;
    assert(interfaces.push(iface).drop_last() =~= interfaces);
    let kept = interfaces.filter(p);
    assert(kept.push(iface).map_values(f) =~= kept.map_values(f).push(f(iface)));
}

/// The active interfaces with one more interface.
proof fn lemma_active_count_push(interfaces: Seq<IbInterface>, iface: IbInterface)
    ensures
        active_count(interfaces.push(iface)) == active_count(interfaces) + if is_active(iface) {
            1int
        } else {
            0int
        },
{
    reveal(Seq::filter);
    assert(interfaces.push(iface).drop_last() =~= interfaces);
}

/// A label of a machine whose key is `rv.` and any text, and which is set, is a label
/// of the tray, unless a later label of the same key is set too.
pub proof fn law_every_set_rv_label_reaches_the_tray(machine: Machine, i: int, rest: Seq<char>)
    requires
        machine.metadata is Some,
        0 <= i < machine.metadata->0.labels@.len(),
        machine.metadata->0.labels@[i].key@ == "rv."@ + rest,
        machine.metadata->0.labels@[i].value is Some,
        forall|j: int|
            i < j < machine.metadata->0.labels@.len() && (
            #[trigger] machine.metadata->0.labels@[j]).key@ == "rv."@ + rest
                ==> machine.metadata->0.labels@[j].value is None,
    ensures
        tray_of(machine).rv_labels.contains_key("rv."@ + rest),
        tray_of(machine).rv_labels["rv."@ + rest] == machine.metadata->0.labels@[i].value->0@,
{
    law_rv_keys_are_rv_dot_and_any_text("rv."@ + rest, rest);
    lemma_last_set_label_reaches_tray(machine.metadata->0.labels@, i);
}

/// The last set label of an `rv.*` key is collected.
proof fn lemma_last_set_label_reaches_tray(labels: Seq<Label>, i: int)
    requires
        0 <= i < labels.len(),
        is_rv(labels[i].key@),
        labels[i].value is Some,
        forall|j: int|
            i < j < labels.len() && (#[trigger] labels[j]).key@ == labels[i].key@
                ==> labels[j].value is None,
    ensures
        collect(rv_pairs(labels)).contains_key(labels[i].key@),
        collect(rv_pairs(labels))[labels[i].key@] == labels[i].value->0@,
    decreases labels.len(),
{
    let rest = labels.drop_last();
    let last = labels.last();
    lemma_rv_pairs_last(labels);
    if is_rv(last.key@) && last.value is Some {
        assert(rv_pairs(labels).drop_last() =~= rv_pairs(rest));
    }
    if i < rest.len() {
        assert(rest[i] == labels[i]);
        assert forall|j: int|
            i < j < rest.len() && (#[trigger] rest[j]).key@
                == rest[i].key@ implies rest[j].value is None by {
            assert(labels[j] == rest[j]);
        }
        lemma_last_set_label_reaches_tray(rest, i);
        assert(labels[labels.len() - 1] == last);
    }
}

/// A label of a tray has a key that is `rv.` and some text, and is a set label of its
/// machine with this key and this value.
pub proof fn law_every_label_of_a_tray_is_one_of_its_machine(machine: Machine, key: Seq<char>)
    requires
        tray_of(machine).rv_labels.contains_key(key),
    ensures
        key.len() >= 3,
        key == "rv."@ + key.skip(3),
        machine.metadata is Some,
        exists|i: int|
            0 <= i < machine.metadata->0.labels@.len() && (
            #[trigger] machine.metadata->0.labels@[i]).key@ == key
                && machine.metadata->0.labels@[i].value is Some
                && machine.metadata->0.labels@[i].value->0@ == tray_of(machine).rv_labels[key],
{
    lemma_tray_label_value_has_source(machine.metadata->0.labels@, key);
    law_rv_keys_are_rv_dot_and_any_text(key, Seq::empty());
}

/// A collected value comes from an `rv.*` label that has it.
proof fn lemma_tray_label_value_has_source(labels: Seq<Label>, k: Seq<char>)
    requires
        collect(rv_pairs(labels)).contains_key(k),
    ensures
        is_rv(k),
        exists|i: int|
            0 <= i < labels.len() && (#[trigger] labels[i]).key@ == k && labels[i].value is Some
                && labels[i].value->0@ == collect(rv_pairs(labels))[k],
    decreases labels.len(),
{
    lemma_tray_label_has_source(labels, k);
    let rest = labels.drop_last();
    let last = labels.last();
    lemma_rv_pairs_last(labels);
    if is_rv(last.key@) && last.value is Some {
        assert(rv_pairs(labels).drop_last() =~= rv_pairs(rest));
    }
    if is_rv(last.key@) && last.value is Some && last.key@ == k {
        assert(labels[labels.len() - 1].key@ == k);
    } else {
        lemma_tray_label_value_has_source(rest, k);
        let i = choose|i: int|
            0 <= i < rest.len() && (#[trigger] rest[i]).key@ == k && rest[i].value is Some
                && rest[i].value->0@ == collect(rv_pairs(rest))[k];
        assert(labels[i] == rest[i]);
    }
}

/// The label map has exactly the keys of the labels.
pub proof fn law_label_keys_are_those_of_the_labels(labels: Seq<Label>, key: Seq<char>)
    ensures
        label_values(labels).contains_key(key) <==> exists|i: int|
            0 <= i < labels.len() && (#[trigger] labels[i]).key@ == key,
{
    lemma_label_keys(labels, key);
}

/// Of the labels with one key the last one counts, whether it is set or not.
pub proof fn law_the_last_label_of_a_key_counts(labels: Seq<Label>, i: int)
    requires
        0 <= i < labels.len(),
        forall|j: int| i < j < labels.len() ==> (#[trigger] labels[j]).key@ != labels[i].key@,
    ensures
        label_values(labels).contains_key(labels[i].key@),
        labels[i].value is None ==> label_values(labels)[labels[i].key@] is None,
        labels[i].value is Some ==> label_values(labels)[labels[i].key@] == Some(
            labels[i].value->0@,
        ),
    decreases labels.len(),
{
    let rest = labels.drop_last();
    if i < rest.len() {
        assert forall|j: int| i < j < rest.len() implies (#[trigger] rest[j]).key@
            != rest[i].key@ by {
            assert(labels[j].key@ != labels[i].key@);
        }
        law_the_last_label_of_a_key_counts(rest, i);
        assert(labels[labels.len() - 1].key@ != labels[i].key@);
    }
}

/// A rack has the ID of the API rack, or an empty one where there is none, its state,
/// and the IDs of its compute trays in order.
pub proof fn law_rack_has_what_the_api_rack_has(rack: Rack)
    ensures
        rack.id is Some ==> rack_of(rack).id == rack.id->0@,
        rack.id is None ==> rack_of(rack).id.len() == 0,
        rack_of(rack).state == rack.rack_state@,
        rack_of(rack).compute_tray_ids.len() == rack.compute_trays@.len(),
        forall|i: int|
            0 <= i < rack.compute_trays@.len() ==> #[trigger] rack_of(rack).compute_tray_ids[i]
                == rack.compute_trays@[i]@,
{
}

/// A firmware record keeps its ID and holds the parsed document, and there is one if
/// and only if the document could be parsed.
pub proof fn law_firmware_record_holds_the_document(
    id: Seq<char>,
    document: Json,
    reason: Seq<char>,
)
    ensures
        firmware_of(id, Ok(document)) matches Ok(r) && r.id == id && r.config == document,
        firmware_of(id, Err(reason)) == Err::<FirmwareView, ErrorView>(
            ErrorView::InvalidArg("invalid SOT JSON: "@ + reason),
        ),
{
}

/// What is seen of a tray is each of its fields.
pub proof fn law_trays_are_seen_as_they_are(tray: TrayData)
    ensures
        tray@.id == tray.id@,
        tray@.rv_labels == tray.rv_labels@,
        tray@.nvl is Some <==> tray.nvl is Some,
        tray.nvl matches Some(n) ==> tray@.nvl->0.gpu_count == n.gpu_count
            && tray@.nvl->0.domain_uuid is Some == n.domain_uuid is Some,
        tray.nvl matches Some(n) && n.domain_uuid is Some ==> tray@.nvl->0.domain_uuid == Some(
            tray.nvl->0.domain_uuid->0@,
        ),
        tray@.ib is Some <==> tray.ib is Some,
        tray.ib matches Some(b) ==> {
            &&& tray@.ib->0.port_count == b.port_count
            &&& tray@.ib->0.active_port_count == b.active_port_count
            &&& tray@.ib->0.fabric_ids.len() == b.fabric_ids@.len()
            &&& forall|i: int|
                0 <= i < b.fabric_ids@.len() ==> #[trigger] tray@.ib->0.fabric_ids[i]
                    == b.fabric_ids@[i]@
        },
{
}

/// What is seen of a rack is each of its fields, and of a firmware record its ID and
/// its document.
pub proof fn law_racks_and_records_are_seen_as_they_are(rack: RackData, record: RackFirmwareData)
    ensures
        rack@.id == rack.id@,
        rack@.state == rack.state@,
        rack@.compute_tray_ids.len() == rack.compute_tray_ids@.len(),
        forall|i: int|
            0 <= i < rack.compute_tray_ids@.len() ==> #[trigger] rack@.compute_tray_ids[i]
                == rack.compute_tray_ids@[i]@,
        record@.id == record.id@,
        record@.config == json_view(record.config),
        firmware_view(Ok(record)) == Ok::<FirmwareView, ErrorView>(record@),
{
}

/// Machines and trays stand at the same places: every machine gives one tray.
pub proof fn law_every_machine_gives_one_tray(machines: Seq<Machine>, trays: Seq<TrayData>)
    ensures
        trays_of(machines).len() == machines.len(),
        forall|i: int|
            0 <= i < machines.len() ==> #[trigger] trays_of(machines)[i] == tray_of(machines[i]),
        tray_views(trays).len() == trays.len(),
        forall|i: int| 0 <= i < trays.len() ==> #[trigger] tray_views(trays)[i] == trays[i]@,
{
}

/// What is seen of a parse is the document or the text of the error, and of a failed
/// record its error.
pub proof fn law_parses_are_seen_as_they_are(
    value: serde_json::Value,
    reason: String,
    error: RvsError,
)
    ensures
        parsed_view(Ok(value)) == Ok::<Json, Seq<char>>(json_view(value)),
        parsed_view(Err(reason)) == Err::<Json, Seq<char>>(reason@),
        firmware_view(Err(error)) == Err::<FirmwareView, ErrorView>(error@),
{
}

/// Where no key is listed twice, labels at two places have different keys, and every
/// list whose keys differ place by place is such a list.
pub proof fn law_no_key_is_listed_twice(labels: Seq<Label>)
    ensures
        no_label_twice(labels) <==> forall|i: int, j: int|
            0 <= i < labels.len() && 0 <= j < labels.len() && (#[trigger] labels[i]).key@ == (
            #[trigger] labels[j]).key@ ==> i == j,
{
}

} // verus!
