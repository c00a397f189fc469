//! The exchanges with the inventory API: which requests are sent and what is made
//! of the answers.

use crate::client::{
    extend_trays, firmware_of, firmware_view, label_values, law_tray_labels_are_the_set_rv_labels,
    lemma_distinct_labels_are_last, lemma_label_entry, lemma_label_keys, machine_labels,
    no_label_twice, or_empty, rack_of, set_rv_values, text_or_empty, tray_of, tray_views, trays_of,
    FirmwareView, Label, Machine, Metadata, Rack, RackData, RackFirmware, RackFirmwareData,
    RackView, TrayData, TrayView,
};
use crate::error::{ErrorView, RvsError};
use crate::ids::{id_view, parse_id, uuid_parse};
use crate::json::json_parse;
use crate::label::{
    all_rv, collect, distinct_keys, is_rv, law_rv_keys_are_rv_dot_and_any_text,
    lemma_collect_entry, lemma_collect_keys, merge_rv_labels, merged, pair_texts, rv_only, LabelMap,
};
use crate::text::{same_text, text_of, texts};
use vstd::prelude::*;
use vstd::string::*;

verus! {

/// Request for racks.
#[derive(Debug)]
pub struct GetRackRequest {
    /// The rack to return; all racks where unset.
    pub id: Option<String>,
}

/// Request for one rack firmware record.
#[derive(Debug)]
pub struct RackFirmwareGetRequest {
    pub id: String,
}

/// Request for the rack firmware records.
#[derive(Debug)]
pub struct RackFirmwareListRequest {
    pub only_available: bool,
}

/// Request for machines, by their parsed IDs in printed form.
#[derive(Debug)]
pub struct MachinesByIdsRequest {
    pub machine_ids: Vec<String>,
    pub include_history: bool,
}

/// Request to replace the metadata of a machine.
#[derive(Debug)]
pub struct MachineMetadataUpdateRequest {
    /// The parsed ID in printed form.
    pub machine_id: Option<String>,
    pub if_version_match: Option<String>,
    pub metadata: Option<Metadata>,
}

/// Which operating system an instance boots.
#[derive(Debug)]
pub enum OsVariant {
    /// A stored image, by its UUID in printed form.
    OsImageId(String),
}

/// Operating system settings of an instance.
#[derive(Debug)]
pub struct OperatingSystem {
    pub variant: Option<OsVariant>,
    pub phone_home_enabled: bool,
    pub run_provisioning_instructions_on_every_boot: bool,
    pub user_data: Option<String>,
}

/// Settings of an instance. Tenant, network, InfiniBand, security group, DPU and
/// NVLink settings are never given.
#[derive(Debug)]
pub struct InstanceConfig {
    pub os: Option<OperatingSystem>,
}

/// Request to allocate an instance.
#[derive(Debug)]
pub struct InstanceAllocationRequest {
    /// The parsed ID in printed form.
    pub machine_id: Option<String>,
    pub config: Option<InstanceConfig>,
    pub instance_id: Option<String>,
    pub instance_type_id: Option<String>,
    pub metadata: Option<Metadata>,
    pub allow_unhealthy_machine: bool,
}

/// Request for instances, by the 128-bit values of their UUIDs.
#[derive(Debug)]
pub struct InstancesByIdsRequest {
    pub instance_ids: Vec<u128>,
}

/// The request for all racks.
pub fn all_racks_request() -> (request: GetRackRequest)
    ensures
        request.id is None,
{
    GetRackRequest { id: None }
}

/// The racks by their contents.
pub open spec fn rack_views(racks: Seq<RackData>) -> Seq<RackView> {
    racks.map_values(|r: RackData| r@)
}

/// The racks of an answer, in order.
pub fn racks_from(racks: Vec<Rack>) -> (data: Vec<RackData>)
    ensures
        rack_views(data@) == racks@.map_values(|r: Rack| rack_of(r)),
        data@.len() == racks@.len(),
        forall|i: int| 0 <= i < racks@.len() ==> (#[trigger] data@[i])@ == rack_of(racks@[i]),
{
    let ghost f = |r: Rack| rack_of(r);
    let mut data: Vec<RackData> = Vec::new();
    assert(rack_views(data@) =~= racks@.take(0).map_values(f));
    for r in iter: racks
        invariant
            iter.seq() == racks@,
            f == |r: Rack| rack_of(r),
            rack_views(data@) == racks@.take(iter.index()).map_values(f),
    {
        let ghost k = iter.index();
        let ghost sofar = data@;
        assert(r == racks@[k]);
        data.push(RackData::from(r));
        assert(rack_views(data@) =~= rack_views(sofar).push(rack_of(r)));
        assert(racks@.take(k + 1).map_values(f) =~= racks@.take(k).map_values(f).push(f(r)));
    }
    assert(racks@.take(racks@.len() as int) =~= racks@);
    assert(rack_views(data@).len() == data@.len());
    assert forall|i: int| 0 <= i < racks@.len() implies (#[trigger] data@[i])@ == rack_of(
        racks@[i],
    ) by {
        assert(rack_views(data@)[i] == f(racks@[i]));
    }
    data
}

/// The request for one firmware record.
pub fn firmware_request(firmware_id: &str) -> (request: RackFirmwareGetRequest)
    ensures
        request.id@ == firmware_id@,
{
    RackFirmwareGetRequest { id: firmware_id.to_owned() }
}

/// The request for all firmware records, available or not.
pub fn firmware_list_request() -> (request: RackFirmwareListRequest)
    ensures
        !request.only_available,
{
    RackFirmwareListRequest { only_available: false }
}

/// Whether `i` is the first failure among `outcomes`.
pub open spec fn first_failure<T, E>(outcomes: Seq<Result<T, E>>, i: int) -> bool {
    &&& 0 <= i < outcomes.len()
    &&& outcomes[i] is Err
    &&& forall|j: int| 0 <= j < i ==> (#[trigger] outcomes[j]) is Ok
}

/// All values, in order, or the first error.
pub fn all_or_first_error<T, E>(outcomes: Vec<Result<T, E>>) -> (result: Result<Vec<T>, E>)
    ensures
        match result {
            Ok(values) => {
                &&& values@.len() == outcomes@.len()
                &&& forall|i: int|
                    0 <= i < outcomes@.len() ==> (#[trigger] outcomes@[i]) == Ok::<T, E>(values@[i])
            },
            Err(e) => exists|i: int| #[trigger]
                first_failure(outcomes@, i) && outcomes@[i] == Err::<T, E>(e),
        },
{
    let mut values: Vec<T> = Vec::new();
    for o in iter: outcomes
        invariant
            iter.seq() == outcomes@,
            values@.len() == iter.index(),
            forall|i: int|
                0 <= i < iter.index() ==> (#[trigger] outcomes@[i]) == Ok::<T, E>(values@[i]),
    {
        assert(o == outcomes@[iter.index()]);
        match o {
            Ok(v) => {
                values.push(v);
            },
            Err(e) => {
                assert(first_failure(outcomes@, iter.index()));
                return Err(e);
            },
        }
    }
    Ok(values)
}

/// What reading one firmware record gives.
pub open spec fn record_of(record: RackFirmware) -> Result<FirmwareView, ErrorView> {
    firmware_of(record.id@, json_parse(record.config_json@))
}

/// What reading firmware records gives.
pub open spec fn records_of(records: Seq<RackFirmware>) -> Seq<Result<FirmwareView, ErrorView>> {
    records.map_values(|r: RackFirmware| record_of(r))
}

/// The firmware records of an answer, in order; the first document that cannot be
/// parsed makes the whole list fail.
pub fn firmware_records(configs: Vec<RackFirmware>) -> (result: Result<
    Vec<RackFirmwareData>,
    RvsError,
>)
    ensures
        match result {
            Ok(records) => {
                &&& records@.len() == configs@.len()
                &&& forall|i: int|
                    0 <= i < configs@.len() ==> record_of(#[trigger] configs@[i]) == Ok::<
                        FirmwareView,
                        ErrorView,
                    >(records@[i]@)
            },
            Err(e) => exists|i: int| #[trigger]
                first_failure(records_of(configs@), i) && records_of(configs@)[i] == Err::<
                    FirmwareView,
                    ErrorView,
                >(e@),
        },
{
    let ghost expected = records_of(configs@);
    let mut outcomes: Vec<Result<RackFirmwareData, RvsError>> = Vec::new();
    for c in iter: configs
        invariant
            iter.seq() == configs@,
            expected == records_of(configs@),
            outcomes@.len() == iter.index(),
            forall|i: int|
                0 <= i < iter.index() ==> firmware_view(#[trigger] outcomes@[i]) == expected[i],
    {
        assert(c == configs@[iter.index()]);
        outcomes.push(RackFirmwareData::try_from(c));
    }
    let ghost seen = outcomes@;
    let result = all_or_first_error(outcomes);
    proof {
        match &result {
            Ok(records) => {
                assert forall|i: int| 0 <= i < configs@.len() implies record_of(
                    #[trigger] configs@[i],
                ) == Ok::<FirmwareView, ErrorView>(records@[i]@) by {
                    assert(firmware_view(seen[i]) == expected[i]);
                }
            },
            Err(e) => {
                let i = choose|i: int| #[trigger]
                    first_failure(seen, i) && seen[i] == Err::<RackFirmwareData, RvsError>(*e);
                assert forall|j: int| 0 <= j < i implies (#[trigger] expected[j]) is Ok by {
                    assert(firmware_view(seen[j]) == expected[j]);
                }
                assert(firmware_view(seen[i]) == expected[i]);
                assert(first_failure(expected, i));
            },
        }
    }
    result
}

/// The request for the machines whose IDs were parsed, without machine history; the
/// first ID that is no machine ID is an error.
pub fn machines_request_from(parsed: Vec<Result<String, String>>) -> (result: Result<
    MachinesByIdsRequest,
    RvsError,
>)
    ensures
        match result {
            Ok(request) => {
                &&& request.machine_ids@.len() == parsed@.len()
                &&& forall|i: int|
                    0 <= i < parsed@.len() ==> (#[trigger] parsed@[i]) == Ok::<String, String>(
                        request.machine_ids@[i],
                    )
                &&& !request.include_history
            },
            Err(e) => exists|i: int| #[trigger]
                first_failure(parsed@, i) && e@ == ErrorView::InvalidId(parsed@[i]->Err_0@),
        },
{
    match all_or_first_error(parsed) {
        Ok(machine_ids) => Ok(MachinesByIdsRequest { machine_ids, include_history: false }),
        Err(e) => Err(RvsError::InvalidId(e)),
    }
}

/// The entries of a label map whose keys do not start with `rv.`, set or unset.
pub open spec fn other_values(values: Map<Seq<char>, Option<Seq<char>>>) -> Map<
    Seq<char>,
    Option<Seq<char>>,
> {
    Map::new(|k: Seq<char>| values.contains_key(k) && !is_rv(k), |k: Seq<char>| values[k])
}

/// The updates as a label map: every value is set.
pub open spec fn set_values(updates: Map<Seq<char>, Seq<char>>) -> Map<
    Seq<char>,
    Option<Seq<char>>,
> {
    Map::new(|k: Seq<char>| updates.contains_key(k), |k: Seq<char>| Some(updates[k]))
}

/// The label map of a machine after an update: the labels outside `rv.*`, set or
/// unset as they were, and over them the updates.
pub open spec fn updated(
    existing: Map<Seq<char>, Option<Seq<char>>>,
    updates: Map<Seq<char>, Seq<char>>,
) -> Map<Seq<char>, Option<Seq<char>>> {
    other_values(existing).union_prefer_right(set_values(updates))
}

/// A label map with the empty text in place of every unset value.
pub open spec fn filled(values: Map<Seq<char>, Option<Seq<char>>>) -> Map<Seq<char>, Seq<char>> {
    Map::new(
        |k: Seq<char>| values.contains_key(k),
        |k: Seq<char>|
            match values[k] {
                Some(v) => v,
                None => Seq::empty(),
            },
    )
}

/// An update of a label map is a merge of its texts, and where every value is set it
/// is nothing more than that.
pub proof fn law_update_is_a_merge(
    existing: Map<Seq<char>, Option<Seq<char>>>,
    updates: Map<Seq<char>, Seq<char>>,
)
    ensures
        filled(updated(existing, updates)) == merged(filled(existing), updates),
        (forall|k: Seq<char>| #[trigger] existing.contains_key(k) ==> existing[k] is Some)
            ==> updated(existing, updates) == set_values(merged(filled(existing), updates)),
{
    assert(filled(updated(existing, updates)) =~= merged(filled(existing), updates));
    if forall|k: Seq<char>| #[trigger] existing.contains_key(k) ==> existing[k] is Some {
        assert(updated(existing, updates) =~= set_values(merged(filled(existing), updates)));
    }
}

/// The texts of the labels of a machine.
fn label_map(labels: &Vec<Label>) -> (map: LabelMap)
    ensures
        map@ == filled(label_values(labels@)),
{
    let mut map = LabelMap::new();
    let mut i: usize = 0;
    assert(map@ =~= filled(label_values(labels@.take(0))));
    while i < labels.len()
        invariant
            i <= labels@.len(),
            map@ == filled(label_values(labels@.take(i as int))),
        decreases labels@.len() - i,
    {
        assert(labels@.take(i + 1).drop_last() =~= labels@.take(i as int));
        assert(labels@.take(i + 1).last() == labels@[i as int]);
        let text = match &labels[i].value {
            Some(v) => v.clone(),
            None => String::new(),
        };
        map.insert(labels[i].key.clone(), text);
        i = i + 1;
        assert(map@ =~= filled(label_values(labels@.take(i as int))));
    }
    assert(labels@.take(labels@.len() as int) =~= labels@);
    map
}

/// Whether the last label of `key` has no value.
fn is_unset(labels: &Vec<Label>, key: &str) -> (unset: bool)
    ensures
        unset == (label_values(labels@).contains_key(key@) && label_values(labels@)[key@] is None),
{
    let mut unset = false;
    let mut i: usize = 0;
    while i < labels.len()
        invariant
            i <= labels@.len(),
            unset == (label_values(labels@.take(i as int)).contains_key(key@) && label_values(
                labels@.take(i as int),
            )[key@] is None),
        decreases labels@.len() - i,
    {
        assert(labels@.take(i + 1).drop_last() =~= labels@.take(i as int));
        assert(labels@.take(i + 1).last() == labels@[i as int]);
        if same_text(labels[i].key.as_str(), key) {
            unset = labels[i].value.is_none();
        }
        i = i + 1;
    }
    assert(labels@.take(labels@.len() as int) =~= labels@);
    unset
}

/// The labels to send: those of the merged texts, with the values that were unset and
/// are not updated left unset.
fn label_list(labels: &Vec<Label>, combined: &LabelMap, updates: &LabelMap) -> (list: Vec<Label>)
    requires
        combined@ == merged(filled(label_values(labels@)), updates@),
    ensures
        no_label_twice(list@),
        label_values(list@) == updated(label_values(labels@), updates@),
{
    let ghost expected = updated(label_values(labels@), updates@);
    let entries = combined.entries();
    let ghost pairs = pair_texts(entries@);
    let mut list: Vec<Label> = Vec::new();
    let mut i: usize = 0;
    proof {
        law_update_is_a_merge(label_values(labels@), updates@);
    }
    while i < entries.len()
        invariant
            i <= entries@.len(),
            pairs == pair_texts(entries@),
            distinct_keys(pairs),
            collect(pairs) == combined@,
            combined@ == filled(expected),
            expected == updated(label_values(labels@), updates@),
            list@.len() == i,
            forall|j: int|
                0 <= j < i ==> (#[trigger] list@[j]).key@ == pairs[j].0 && text_of(list@[j].value)
                    == expected[pairs[j].0],
        decreases entries@.len() - i,
    {
        let key = &entries[i].0;
        proof {
            lemma_collect_entry(pairs, i as int);
            assert(pairs[i as int] == (key@, entries@[i as int].1@));
        }
        let value = if !updates.contains_key(key.as_str()) && is_unset(labels, key.as_str()) {
            None
        } else {
            Some(entries[i].1.clone())
        };
        list.push(Label { key: key.clone(), value });
        i = i + 1;
    }
    proof {
        assert forall|a: int, b: int| 0 <= a < b < list@.len() implies (#[trigger] list@[a]).key@
            != (#[trigger] list@[b]).key@ by {
            assert(pairs[a].0 != pairs[b].0);
        }
        assert forall|k: Seq<char>| #[trigger]
            label_values(list@).contains_key(k) == expected.contains_key(k) by {
            lemma_label_keys(list@, k);
            lemma_collect_keys(pairs, k);
            assert(expected.contains_key(k) == combined@.contains_key(k));
            if expected.contains_key(k) {
                let j = choose|j: int| 0 <= j < pairs.len() && (#[trigger] pairs[j]).0 == k;
                assert(list@[j].key@ == k);
            }
            if label_values(list@).contains_key(k) {
                let j = choose|j: int| 0 <= j < list@.len() && (#[trigger] list@[j]).key@ == k;
                assert(pairs[j].0 == k);
            }
        }
        assert forall|k: Seq<char>| #[trigger] label_values(list@).contains_key(k) implies
            label_values(list@)[k] == expected[k] by {
            lemma_label_keys(list@, k);
            let j = choose|j: int| 0 <= j < list@.len() && (#[trigger] list@[j]).key@ == k;
            lemma_label_entry(list@, j);
        }
        assert(label_values(list@) =~= expected);
    }
    list
}

/// The request that updates the `rv.*` labels of a tray, made of its parsed machine ID
/// and the machines that the API returned for it. The labels outside `rv.*` are sent
/// back with the values that they have, an unset value unset; of several labels with
/// one key the last one counts. Name and description are sent empty, and no version
/// has to match.
///
/// Anything but one machine is an error, and then an ID that is no machine ID is one.
/// The request lists the labels in no particular order.
pub fn label_update_request(
    tray_id: &str,
    parsed: Result<String, String>,
    machines: Vec<Machine>,
    updates: &LabelMap,
) -> (result: Result<MachineMetadataUpdateRequest, RvsError>)
    ensures
        match result {
            Ok(request) => {
                &&& machines@.len() == 1
                &&& parsed matches Ok(machine_id) && text_of(request.machine_id) == Some(
                    machine_id@,
                )
                &&& request.if_version_match is None
                &&& request.metadata matches Some(m) && {
                    &&& m.name@.len() == 0
                    &&& m.description@.len() == 0
                    &&& no_label_twice(m.labels@)
                    &&& label_values(m.labels@) == updated(
                        machine_labels(machines@[0]),
                        updates@,
                    )
                }
            },
            Err(e) => if machines@.len() != 1 {
                e@ == (ErrorView::UnexpectedMachineCount {
                    tray_id: tray_id@,
                    count: machines@.len() as usize,
                })
            } else {
                parsed matches Err(reason) && e@ == ErrorView::InvalidId(reason@)
            },
        },
{
    let count = machines.len();
    if count != 1 {
        return Err(RvsError::UnexpectedMachineCount { tray_id: tray_id.to_owned(), count });
    }
    let machine_id = match parsed {
        Ok(machine_id) => machine_id,
        Err(e) => return Err(RvsError::InvalidId(e)),
    };
    let mut machines = machines;
    let machine = machines.swap_remove(0);
    let existing = match machine.metadata {
        Some(m) => m.labels,
        None => Vec::new(),
    };
    let combined = merge_rv_labels(&label_map(&existing), updates);
    let labels = label_list(&existing, &combined, updates);
    Ok(
        MachineMetadataUpdateRequest {
            machine_id: Some(machine_id),
            if_version_match: None,
            metadata: Some(Metadata { name: String::new(), description: String::new(), labels }),
        },
    )
}

/// What is written is read back: once the labels of an update request are the
/// labels of a machine, its tray carries the `rv.*` labels of the updates and no
/// other `rv.*` labels; and where the updates hold `rv.*` keys alone, the label map
/// of the machine outside `rv.*` is as it was, unset values included.
pub proof fn law_updated_labels_read_back(
    before: Machine,
    after: Machine,
    updates: Map<Seq<char>, Seq<char>>,
)
    requires
        after.metadata matches Some(m) && no_label_twice(m.labels@) && label_values(m.labels@)
            == updated(machine_labels(before), updates),
    ensures
        tray_of(after).rv_labels == rv_only(updates),
        all_rv(updates) ==> tray_of(after).rv_labels == updates,
        all_rv(updates) ==> other_values(machine_labels(after)) == other_values(
            machine_labels(before),
        ),
{
    let existing = machine_labels(before);
    lemma_distinct_labels_are_last(after.metadata->0.labels@);
    law_tray_labels_are_the_set_rv_labels(after);
    assert(set_rv_values(updated(existing, updates)) =~= rv_only(updates));
    if all_rv(updates) {
        assert(rv_only(updates) =~= updates);
        assert(other_values(updated(existing, updates)) =~= other_values(existing));
    }
}

/// Every label outside `rv.*` is sent back: where no key of the machine is listed
/// twice and the updates hold `rv.*` keys alone, each such label has a label in the
/// update request with the same key and the same value, set or unset.
pub proof fn law_every_other_label_is_sent_back(
    labels: Seq<Label>,
    sent: Seq<Label>,
    updates: Map<Seq<char>, Seq<char>>,
    i: int,
)
    requires
        no_label_twice(labels),
        all_rv(updates),
        no_label_twice(sent),
        label_values(sent) == updated(label_values(labels), updates),
        0 <= i < labels.len(),
        !is_rv(labels[i].key@),
    ensures
        exists|j: int|
            0 <= j < sent.len() && (#[trigger] sent[j]).key@ == labels[i].key@ && text_of(
                sent[j].value,
            ) == text_of(labels[i].value),
{
    let k = labels[i].key@;
    lemma_label_entry(labels, i);
    assert(!updates.contains_key(k));
    assert(updated(label_values(labels), updates).contains_key(k));
    lemma_label_keys(sent, k);
    let j = choose|j: int| 0 <= j < sent.len() && (#[trigger] sent[j]).key@ == k;
    lemma_label_entry(sent, j);
}

/// The UUID with all bits zero, in printed form.
pub open spec fn nil_uuid() -> Seq<char> {
    "00000000-0000-0000-0000-000000000000"@
}

/// Whether a request asks for a validation instance on `machine_id`: a healthy
/// machine, the image with the nil UUID, nothing else set.
pub open spec fn allocates(request: InstanceAllocationRequest, machine_id: Seq<char>) -> bool {
    &&& text_of(request.machine_id) == Some(machine_id)
    &&& request.config matches Some(config) && {
        &&& config.os matches Some(os) && {
            &&& os.variant matches Some(OsVariant::OsImageId(image)) && image@ == nil_uuid()
            &&& !os.phone_home_enabled
            &&& !os.run_provisioning_instructions_on_every_boot
            &&& os.user_data is None
        }
    }
    &&& request.instance_id is None
    &&& request.instance_type_id is None
    &&& request.metadata is None
    &&& !request.allow_unhealthy_machine
}

/// The request for a validation instance on the machine whose ID was parsed; an ID
/// that is no machine ID is an error.
///
/// OS image URIs are not resolved to image UUIDs yet: the image is the nil UUID.
pub fn instance_allocation_request(parsed: Result<String, String>) -> (result: Result<
    InstanceAllocationRequest,
    RvsError,
>)
    ensures
        match result {
            Ok(request) => parsed matches Ok(machine_id) && allocates(request, machine_id@),
            Err(e) => parsed matches Err(reason) && e@ == ErrorView::InvalidId(reason@),
        },
{
    let machine_id = match parsed {
        Ok(machine_id) => machine_id,
        Err(e) => return Err(RvsError::InvalidId(e)),
    };
    Ok(
        InstanceAllocationRequest {
            machine_id: Some(machine_id),
            config: Some(
                InstanceConfig {
                    os: Some(
                        OperatingSystem {
                            variant: Some(
                                OsVariant::OsImageId(
                                    "00000000-0000-0000-0000-000000000000".to_owned(),
                                ),
                            ),
                            phone_home_enabled: false,
                            run_provisioning_instructions_on_every_boot: false,
                            user_data: None,
                        },
                    ),
                },
            ),
            instance_id: None,
            instance_type_id: None,
            metadata: None,
            allow_unhealthy_machine: false,
        },
    )
}

/// The ID of an allocated instance; empty where the answer has none.
pub fn allocated_instance_id(id: Option<String>) -> (text: String)
    ensures
        text@ == or_empty(id),
        id is Some ==> text@ == id->0@,
        id is None ==> text@.len() == 0,
{
    text_or_empty(id)
}

/// The request for the instances whose IDs were parsed; the first ID that is no
/// UUID is an error.
pub fn instances_request_from(parsed: Vec<Result<u128, String>>) -> (result: Result<
    InstancesByIdsRequest,
    RvsError,
>)
    ensures
        match result {
            Ok(request) => {
                &&& request.instance_ids@.len() == parsed@.len()
                &&& forall|i: int|
                    0 <= i < parsed@.len() ==> (#[trigger] parsed@[i]) == Ok::<u128, String>(
                        request.instance_ids@[i],
                    )
            },
            Err(e) => exists|i: int| #[trigger]
                first_failure(parsed@, i) && e@ == ErrorView::InvalidId(parsed@[i]->Err_0@),
        },
{
    match all_or_first_error(parsed) {
        Ok(instance_ids) => Ok(InstancesByIdsRequest { instance_ids }),
        Err(e) => Err(RvsError::InvalidId(e)),
    }
}

/// What parsing the texts of instance IDs gives.
pub open spec fn ids_of(instance_ids: Seq<String>) -> Seq<Result<u128, Seq<char>>> {
    instance_ids.map_values(|id: String| uuid_parse(id@))
}

/// The request for the instances with the given IDs; the first ID that is no UUID
/// is an error.
pub fn instances_request(instance_ids: &Vec<String>) -> (result: Result<
    InstancesByIdsRequest,
    RvsError,
>)
    ensures
        match result {
            Ok(request) => {
                &&& request.instance_ids@.len() == instance_ids@.len()
                &&& forall|i: int|
                    0 <= i < instance_ids@.len() ==> uuid_parse((#[trigger] instance_ids@[i])@)
                        == Ok::<u128, Seq<char>>(request.instance_ids@[i])
            },
            Err(e) => exists|i: int| #[trigger]
                first_failure(ids_of(instance_ids@), i) && e@ == ErrorView::InvalidId(
                    ids_of(instance_ids@)[i]->Err_0,
                ),
        },
{
    let ghost expected = ids_of(instance_ids@);
    let mut parsed: Vec<Result<u128, String>> = Vec::new();
    let mut i: usize = 0;
    while i < instance_ids.len()
        invariant
            i <= instance_ids@.len(),
            parsed@.len() == i,
            expected == ids_of(instance_ids@),
            forall|j: int| 0 <= j < i ==> id_view(#[trigger] parsed@[j]) == expected[j],
        decreases instance_ids@.len() - i,
    {
        parsed.push(parse_id(instance_ids[i].as_str()));
        i = i + 1;
    }
    let ghost seen = parsed@;
    let result = instances_request_from(parsed);
    proof {
        match &result {
            Ok(request) => {
                assert forall|j: int| 0 <= j < instance_ids@.len() implies uuid_parse(
                    (#[trigger] instance_ids@[j])@,
                ) == Ok::<u128, Seq<char>>(request.instance_ids@[j]) by {
                    assert(id_view(seen[j]) == expected[j]);
                }
            },
            Err(e) => {
                let k = choose|k: int| #[trigger]
                    first_failure(seen, k) && e@ == ErrorView::InvalidId(seen[k]->Err_0@);
                assert forall|j: int| 0 <= j < k implies (#[trigger] expected[j]) is Ok by {
                    assert(id_view(seen[j]) == expected[j]);
                }
                assert(id_view(seen[k]) == expected[k]);
                assert(first_failure(expected, k));
            },
        }
    }
    result
}

/// How many machines are asked for at once.
pub const MACHINES_PER_REQUEST: usize = 50;

/// The state of fetching the machines of a rack: the IDs of its trays, how many of
/// them have been answered, and the trays so far.
pub struct FetchView {
    pub ids: Seq<Seq<char>>,
    pub done: nat,
    pub trays: Seq<TrayView>,
}

impl FetchView {
    /// Where the next chunk ends.
    pub open spec fn chunk_end(self) -> nat {
        if self.done + MACHINES_PER_REQUEST <= self.ids.len() {
            self.done + MACHINES_PER_REQUEST as nat
        } else {
            self.ids.len()
        }
    }

    /// The IDs to ask for next; none where all have been answered.
    pub open spec fn chunk(self) -> Option<Seq<Seq<char>>> {
        if self.done < self.ids.len() {
            Some(self.ids.subrange(self.done as int, self.chunk_end() as int))
        } else {
            None
        }
    }

    /// The state after an answer.
    pub open spec fn received(self, machines: Seq<Machine>) -> FetchView {
        FetchView {
            ids: self.ids,
            done: self.chunk_end(),
            trays: self.trays + trays_of(machines),
        }
    }

    /// The state after several answers.
    pub open spec fn after(self, answers: Seq<Seq<Machine>>) -> FetchView
        decreases answers.len(),
    {
        if answers.len() == 0 {
            self
        } else {
            self.after(answers.drop_last()).received(answers.last())
        }
    }
}

/// The state before the first request.
pub open spec fn fetch_start(ids: Seq<Seq<char>>) -> FetchView {
    FetchView { ids, done: 0, trays: Seq::empty() }
}

/// Fetches the machines of the compute trays of a rack, a chunk at a time: parse the
/// IDs that [`MachineFetch::next_ids`] gives, send what [`machines_request_from`]
/// makes of them and hand the answer to [`MachineFetch::receive`], until there are no
/// further IDs.
pub struct MachineFetch {
    ids: Vec<String>,
    done: usize,
    trays: Vec<TrayData>,
}

impl View for MachineFetch {
    type V = FetchView;

    closed spec fn view(&self) -> FetchView {
        FetchView {
            ids: texts(self.ids@),
            done: self.done as nat,
            trays: tray_views(self.trays@),
        }
    }
}

/// A copy of the strings from `from` up to `to`.
fn copy_ids(ids: &Vec<String>, from: usize, to: usize) -> (copy: Vec<String>)
    requires
        from <= to <= ids@.len(),
    ensures
        texts(copy@) == texts(ids@).subrange(from as int, to as int),
{
    let mut copy: Vec<String> = Vec::new();
    let mut i: usize = from;
    while i < to
        invariant
            from <= i <= to,
            to <= ids@.len(),
            copy@.len() == i - from,
            forall|j: int| 0 <= j < copy@.len() ==> (#[trigger] copy@[j])@ == ids@[from + j]@,
        decreases to - i,
    {
        copy.push(ids[i].clone());
        i = i + 1;
    }
    assert(texts(copy@) =~= texts(ids@).subrange(from as int, to as int));
    copy
}

impl MachineFetch {
    #[verifier::type_invariant]
    spec fn within_ids(self) -> bool {
        self.done <= self.ids@.len()
    }

    /// The fetch of the compute trays of `rack`.
    pub fn new(rack: &RackData) -> (fetch: MachineFetch)
        ensures
            fetch@ == fetch_start(rack@.compute_tray_ids),
    {
        let n = rack.compute_tray_ids.len();
        let ids = copy_ids(&rack.compute_tray_ids, 0, n);
        assert(rack@.compute_tray_ids.subrange(0, n as int) =~= rack@.compute_tray_ids);
        let fetch = MachineFetch { ids, done: 0, trays: Vec::new() };
        assert(fetch@.trays =~= Seq::empty());
        fetch
    }

    /// Where the next chunk ends.
    fn chunk_end(&self) -> (end: usize)
        ensures
            end == self@.chunk_end(),
            self.done <= end <= self.ids@.len(),
    {
        proof {
            use_type_invariant(self);
        }
        if self.ids.len() - self.done >= MACHINES_PER_REQUEST {
            self.done + MACHINES_PER_REQUEST
        } else {
            self.ids.len()
        }
    }

    /// The IDs to ask for next; none where all trays have been asked for.
    pub fn next_ids(&self) -> (ids: Option<Vec<String>>)
        ensures
            match ids {
                Some(ids) => self@.chunk() == Some(texts(ids@)),
                None => self@.chunk() is None,
            },
    {
        proof {
            use_type_invariant(self);
        }
        if self.done < self.ids.len() {
            Some(copy_ids(&self.ids, self.done, self.chunk_end()))
        } else {
            None
        }
    }

    /// Takes in the machines of the answer to the last request.
    pub fn receive(&mut self, machines: Vec<Machine>)
        ensures
            final(self)@ == old(self)@.received(machines@),
    {
        proof {
            use_type_invariant(&*self);
        }
        let end = self.chunk_end();
        let mut trays: Vec<TrayData> = Vec::new();
        std::mem::swap(&mut trays, &mut self.trays);
        extend_trays(&mut trays, machines);
        self.trays = trays;
        self.done = end;
    }

    /// The trays of all answers.
    pub fn finish(self) -> (trays: Vec<TrayData>)
        ensures
            tray_views(trays@) == self@.trays,
    {
        self.trays
    }
}

/// How many requests a fetch takes.
pub open spec fn request_count(ids: nat) -> nat {
    (ids + MACHINES_PER_REQUEST - 1) as nat / (MACHINES_PER_REQUEST as nat)
}

/// The trays of several answers, one answer after the other.
pub open spec fn all_trays(answers: Seq<Seq<Machine>>) -> Seq<TrayView> {
    answers.map_values(|a: Seq<Machine>| trays_of(a)).flatten()
}

/// The IDs asked for before each answer.
pub open spec fn asked(ids: Seq<Seq<char>>, answers: Seq<Seq<Machine>>) -> Seq<Seq<Seq<char>>> {
    Seq::new(answers.len(), |k: int| fetch_start(ids).after(answers.take(k)).chunk()->0)
}

/// How far a fetch has come after a number of answers.
proof fn lemma_fetch_progress(ids: Seq<Seq<char>>, answers: Seq<Seq<Machine>>)
    requires
        answers.len() <= request_count(ids.len()),
    ensures
        fetch_start(ids).after(answers).ids == ids,
        fetch_start(ids).after(answers).trays == all_trays(answers),
        fetch_start(ids).after(answers).done == (if answers.len() * MACHINES_PER_REQUEST
            <= ids.len() {
            (answers.len() * MACHINES_PER_REQUEST) as nat
        } else {
            ids.len()
        }),
    decreases answers.len(),
{
    let f = |a: Seq<Machine>| trays_of(a);
    let mapped = answers.map_values(f);
    if answers.len() > 0 {
        lemma_fetch_progress(ids, answers.drop_last());
        assert(mapped.drop_last() =~= answers.drop_last().map_values(f));
        mapped.lemma_flatten_and_flatten_alt_are_equivalent();
        mapped.drop_last().lemma_flatten_and_flatten_alt_are_equivalent();
        assert(mapped.last() == trays_of(answers.last()));
    } else {
        assert(mapped =~= Seq::empty());
        assert(all_trays(answers) =~= Seq::empty());
    }
}

/// A fetch asks for every tray once and in order, in chunks of at most the allowed
/// size and none of them empty; it is done after as many answers as there are
/// chunks, and then holds the trays of all answers in order.
pub proof fn law_fetch_asks_for_every_tray_once(ids: Seq<Seq<char>>, answers: Seq<Seq<Machine>>)
    requires
        answers.len() == request_count(ids.len()),
    ensures
        forall|k: int|
            0 <= k < answers.len() ==> fetch_start(ids).after(
                #[trigger] answers.take(k),
            ).chunk() is Some,
        forall|k: int|
            0 <= k < answers.len() ==> 0 < (#[trigger] asked(ids, answers)[k]).len()
                <= MACHINES_PER_REQUEST,
        asked(ids, answers).flatten() == ids,
        fetch_start(ids).after(answers).chunk() is None,
        fetch_start(ids).after(answers).trays == all_trays(answers),
{
    let n = answers.len() as int;
    assert forall|k: int| 0 <= k < n implies fetch_start(ids).after(
        #[trigger] answers.take(k),
    ).chunk() is Some by {
        lemma_fetch_progress(ids, answers.take(k));
    }
    assert forall|k: int| 0 <= k < n implies 0 < (#[trigger] asked(ids, answers)[k]).len()
        <= MACHINES_PER_REQUEST by {
        lemma_fetch_progress(ids, answers.take(k));
    }
    lemma_fetch_progress(ids, answers);
    lemma_asked_prefix(ids, answers, n);
    assert(answers.take(n) =~= answers);
    assert(asked(ids, answers).take(n) =~= asked(ids, answers));
    assert(ids.take(ids.len() as int) =~= ids);
}

/// The first chunks together are the IDs up to where the fetch has come.
proof fn lemma_asked_prefix(ids: Seq<Seq<char>>, answers: Seq<Seq<Machine>>, k: int)
    requires
        answers.len() == request_count(ids.len()),
        0 <= k <= answers.len(),
    ensures
        asked(ids, answers).take(k).flatten() == ids.take(
            fetch_start(ids).after(answers.take(k)).done as int,
        ),
    decreases k,
{
    let all = asked(ids, answers);
    lemma_fetch_progress(ids, answers.take(k));
    if k > 0 {
        let before = fetch_start(ids).after(answers.take(k - 1));
        lemma_asked_prefix(ids, answers, k - 1);
        lemma_fetch_progress(ids, answers.take(k - 1));
        assert(all.take(k).drop_last() =~= all.take(k - 1));
        assert(all.take(k).last() == before.chunk()->0);
        all.take(k).lemma_flatten_and_flatten_alt_are_equivalent();
        all.take(k - 1).lemma_flatten_and_flatten_alt_are_equivalent();
        assert(answers.take(k).drop_last() =~= answers.take(k - 1));
        assert(ids.take(before.done as int) + ids.subrange(
            before.done as int,
            before.chunk_end() as int,
        ) =~= ids.take(before.chunk_end() as int));
    } else {
        assert(all.take(0) =~= Seq::empty());
        assert(answers.take(0) =~= Seq::empty());
        assert(ids.take(0) =~= Seq::empty());
    }
}

/// The first failure is a failure and comes before every other.
pub proof fn law_first_failure_comes_first<T, E>(outcomes: Seq<Result<T, E>>, i: int)
    requires
        first_failure(outcomes, i),
    ensures
        0 <= i < outcomes.len(),
        outcomes[i] is Err,
        forall|j: int| 0 <= j < outcomes.len() && (#[trigger] outcomes[j]) is Err ==> i <= j,
{
}

/// Where some outcome is a failure there is a first one.
pub proof fn law_a_failure_is_reported<T, E>(outcomes: Seq<Result<T, E>>, j: int)
    requires
        0 <= j < outcomes.len(),
        outcomes[j] is Err,
    ensures
        exists|i: int| #[trigger] first_failure(outcomes, i) && i <= j,
    decreases j,
{
    if exists|k: int| 0 <= k < j && (#[trigger] outcomes[k]) is Err {
        let k = choose|k: int| 0 <= k < j && (#[trigger] outcomes[k]) is Err;
        law_a_failure_is_reported(outcomes, k);
    } else {
        assert(first_failure(outcomes, j));
    }
}

/// Reading a firmware record gives its ID with its parsed document, or the reason for
/// which the document could not be parsed; records and outcomes stand at the same
/// places.
pub proof fn law_every_record_is_read(records: Seq<RackFirmware>, i: int)
    requires
        0 <= i < records.len(),
    ensures
        records_of(records).len() == records.len(),
        records_of(records)[i] == record_of(records[i]),
        json_parse(records[i].config_json@) matches Ok(document) ==> (record_of(
            records[i],
        ) matches Ok(r) && r.id == records[i].id@ && r.config == document),
        json_parse(records[i].config_json@) matches Err(reason) ==> record_of(records[i]) == Err::<
            FirmwareView,
            ErrorView,
        >(ErrorView::InvalidArg("invalid SOT JSON: "@ + reason)),
{
}

/// After an update a label whose key is `rv.` and any text is there if and only if
/// the updates hold it, set to the value of the updates: a stale one is gone.
pub proof fn law_update_leaves_no_stale_rv_label(
    existing: Map<Seq<char>, Option<Seq<char>>>,
    updates: Map<Seq<char>, Seq<char>>,
    rest: Seq<char>,
)
    ensures
        updated(existing, updates).contains_key("rv."@ + rest) <==> updates.contains_key(
            "rv."@ + rest,
        ),
        updates.contains_key("rv."@ + rest) ==> updated(existing, updates)["rv."@ + rest] == Some(
            updates["rv."@ + rest],
        ),
{
    law_rv_keys_are_rv_dot_and_any_text("rv."@ + rest, rest);
}

/// After an update a label whose key does not start with `rv.` is there if and only
/// if it was there or the updates hold it; it is set to the value of the updates, or
/// else set or unset as it was.
pub proof fn law_update_keeps_every_label_outside_rv(
    existing: Map<Seq<char>, Option<Seq<char>>>,
    updates: Map<Seq<char>, Seq<char>>,
    key: Seq<char>,
)
    requires
        key.len() < 3 || key.take(3) != "rv."@,
    ensures
        updated(existing, updates).contains_key(key) <==> existing.contains_key(key)
            || updates.contains_key(key),
        updates.contains_key(key) ==> updated(existing, updates)[key] == Some(updates[key]),
        existing.contains_key(key) && !updates.contains_key(key) ==> updated(existing, updates)[key]
            == existing[key],
{
    law_rv_keys_are_rv_dot_and_any_text(key, Seq::empty());
    if is_rv(key) {
        reveal_strlit("rv.");
        assert(("rv."@ + key.skip(3)).take(3) =~= "rv."@);
    }
}

/// The labels of a machine are those of its metadata, and none without metadata.
pub proof fn law_labels_of_a_machine_are_in_its_metadata(machine: Machine)
    ensures
        machine.metadata is None ==> forall|k: Seq<char>| !machine_labels(machine).contains_key(k),
        machine.metadata is Some ==> machine_labels(machine) == label_values(
            machine.metadata->0.labels@,
        ),
{
}

/// An allocation names the machine, boots the image whose UUID is all zeros, and asks
/// for a healthy machine and nothing else.
pub proof fn law_allocation_names_the_machine(
    request: InstanceAllocationRequest,
    machine_id: Seq<char>,
)
    requires
        allocates(request, machine_id),
    ensures
        request.machine_id is Some,
        request.machine_id->0@ == machine_id,
        request.config is Some,
        request.config->0.os is Some,
        request.config->0.os->0.variant is Some,
        request.config->0.os->0.variant->0->OsImageId_0@ == "00000000-0000-0000-0000-000000000000"@,
        request.config->0.os->0.user_data is None,
        !request.config->0.os->0.phone_home_enabled,
        !request.config->0.os->0.run_provisioning_instructions_on_every_boot,
        request.instance_id is None,
        request.instance_type_id is None,
        request.metadata is None,
        !request.allow_unhealthy_machine,
{
}

/// Texts of instance IDs and parsed IDs stand at the same places.
pub proof fn law_every_instance_id_is_parsed(instance_ids: Seq<String>, i: int)
    requires
        0 <= i < instance_ids.len(),
    ensures
        ids_of(instance_ids).len() == instance_ids.len(),
        ids_of(instance_ids)[i] == uuid_parse(instance_ids[i]@),
{
}

/// Request number `k` of a fetch asks for the trays from number `50 * k` on, fifty of
/// them or as many as are left.
pub proof fn law_trays_are_asked_for_by_fifties(
    ids: Seq<Seq<char>>,
    answers: Seq<Seq<Machine>>,
    k: int,
)
    requires
        0 <= k <= answers.len(),
        50 * k < ids.len(),
    ensures
        fetch_start(ids).after(answers.take(k)).chunk() == Some(
            ids.subrange(
                50 * k,
                if 50 * k + 50 <= ids.len() {
                    50 * k + 50
                } else {
                    ids.len() as int
                },
            ),
        ),
{
    lemma_fetch_progress(ids, answers.take(k));
}

/// A fetch is over once the answers cover all trays by fifties, and not before.
pub proof fn law_fetch_is_over_when_all_are_answered(
    ids: Seq<Seq<char>>,
    answers: Seq<Seq<Machine>>,
)
    requires
        50 * answers.len() < ids.len() + 50,
    ensures
        fetch_start(ids).after(answers).chunk() is None <==> ids.len() <= 50 * answers.len(),
{
    lemma_fetch_progress(ids, answers);
}

/// At every point of a fetch the next request asks for the fifty trays that follow on
/// those answered, or for as many as are left, and its answer counts for all of them;
/// there is none when no tray is left.
pub proof fn law_next_fifty_are_asked_for(fetch: FetchView, machines: Seq<Machine>)
    requires
        fetch.done <= fetch.ids.len(),
    ensures
        fetch.chunk() is None <==> fetch.done == fetch.ids.len(),
        fetch.done < fetch.ids.len() && fetch.ids.len() <= fetch.done + 50 ==> fetch.chunk() == Some(
            fetch.ids.skip(fetch.done as int),
        ),
        fetch.done + 50 < fetch.ids.len() ==> fetch.chunk() == Some(
            fetch.ids.skip(fetch.done as int).take(50),
        ),
        fetch.received(machines).done == fetch.done + if fetch.chunk() is Some {
            fetch.chunk()->0.len() as int
        } else {
            0int
        },
        fetch_start(fetch.ids).done == 0,
{
    if fetch.done + 50 < fetch.ids.len() {
        assert(fetch.chunk()->0 =~= fetch.ids.skip(fetch.done as int).take(50));
    } else if fetch.done < fetch.ids.len() {
        assert(fetch.chunk()->0 =~= fetch.ids.skip(fetch.done as int));
    }
}

/// Every machine of an answer, whatever it holds, adds its tray behind those before
/// it, at every point of a fetch; a fetch starts without trays.
pub proof fn law_every_answered_machine_adds_its_tray(
    ids: Seq<Seq<char>>,
    fetch: FetchView,
    machines: Seq<Machine>,
    i: int,
)
    requires
        0 <= i < machines.len(),
    ensures
        fetch_start(ids).trays.len() == 0,
        fetch_start(ids).ids == ids,
        fetch.received(machines).ids == fetch.ids,
        fetch.received(machines).trays.len() == fetch.trays.len() + machines.len(),
        fetch.received(machines).trays[fetch.trays.len() + i] == tray_of(machines[i]),
        forall|j: int|
            0 <= j < fetch.trays.len() ==> #[trigger] fetch.received(machines).trays[j]
                == fetch.trays[j],
{
}

/// Racks stand at the places of the API racks.
pub proof fn law_racks_are_seen_in_order(racks: Seq<RackData>, i: int)
    requires
        0 <= i < racks.len(),
    ensures
        rack_views(racks).len() == racks.len(),
        rack_views(racks)[i] == racks[i]@,
{
}

} // verus!
