//! Where the SOT document comes from and how a set of downloads ends.

use crate::client::{
    firmware_of, firmware_record, firmware_view, FirmwareView, RackFirmwareData,
};
use crate::ctx::RvsCtx;
use crate::error::{invalid_arg, outcome_view, ErrorView, RvsError};
use crate::json::{json_parse, json_view, parse, text_member, Json};
use crate::scenario::Scenario;
use crate::text::{same_text, text_of};
use vstd::prelude::*;
use vstd::string::*;

verus! {

/// Where to take the SOT document from.
#[derive(Debug)]
pub enum SotSource {
    /// A file, by its path.
    File(String),
    /// The firmware record of a release, by the name of the release.
    Release(String),
}

/// [`SotSource`] by its text.
pub enum SotSourceView {
    File(Seq<char>),
    Release(Seq<char>),
}

/// The outcome of choosing a source.
pub open spec fn source_view(source: Result<SotSource, RvsError>) -> Result<
    SotSourceView,
    ErrorView,
> {
    match source {
        Ok(SotSource::File(p)) => Ok(SotSourceView::File(p@)),
        Ok(SotSource::Release(r)) => Ok(SotSourceView::Release(r@)),
        Err(e) => Err(e@),
    }
}

/// The source that a context asks for: the override file where one is set, else the
/// release of the first scenario.
pub open spec fn source_of(ctx: RvsCtx) -> Result<SotSourceView, ErrorView> {
    match ctx.sot_override_path {
        Some(path) => Ok(SotSourceView::File(path@)),
        None => if ctx.scenarios@.len() > 0 {
            Ok(SotSourceView::Release(ctx.scenarios@[0].rack.sot_release@))
        } else {
            Err(ErrorView::InvalidArg("fetch_sot: no scenarios loaded"@))
        },
    }
}

/// Chooses where to take the SOT document from. Of several scenarios only the
/// first one counts.
pub fn sot_source(ctx: &RvsCtx) -> (source: Result<SotSource, RvsError>)
    ensures
        source_view(source) == source_of(*ctx),
        ctx.sot_override_path is Some ==> (source matches Ok(SotSource::File(p)) && p@
            == ctx.sot_override_path->0@),
        ctx.sot_override_path is None && ctx.scenarios@.len() > 0 ==> (source matches Ok(
            SotSource::Release(r),
        ) && r@ == ctx.scenarios@.first().rack.sot_release@),
        ctx.sot_override_path is None && ctx.scenarios@.len() == 0 ==> source is Err,
{
    match &ctx.sot_override_path {
        Some(path) => Ok(SotSource::File(path.clone())),
        None => {
            if ctx.scenarios.len() > 0 {
                Ok(SotSource::Release(ctx.scenarios[0].rack.sot_release.clone()))
            } else {
                Err(RvsError::InvalidArg("fetch_sot: no scenarios loaded".to_owned()))
            }
        },
    }
}

/// What reading the override file gives: its content, or the text of the error.
pub open spec fn read_view(content: Result<String, String>) -> Result<Seq<char>, Seq<char>> {
    match content {
        Ok(c) => Ok(c@),
        Err(e) => Err(e@),
    }
}

/// The record that the override file stands for.
pub open spec fn override_of(content: Result<Seq<char>, Seq<char>>) -> Result<
    FirmwareView,
    ErrorView,
> {
    match content {
        Ok(text) => firmware_of("override"@, json_parse(text)),
        Err(e) => Err(ErrorView::InvalidArg("failed to read SOT override: "@ + e)),
    }
}

/// Makes a record of the override file: its content parsed, under the ID
/// `override`.
pub fn override_record(content: Result<String, String>) -> (record: Result<
    RackFirmwareData,
    RvsError,
>)
    ensures
        firmware_view(record) == override_of(read_view(content)),
        content matches Ok(text) ==> firmware_view(record) == override_of(Ok(text@)),
        content matches Err(reason) ==> firmware_view(record) == override_of(Err(reason@)),
{
    match content {
        Ok(text) => {
            let parsed = parse(text.as_str());
            firmware_record("override".to_owned(), parsed)
        },
        Err(e) => Err(invalid_arg("failed to read SOT override: ", e.as_str())),
    }
}

/// Whether `i` is the first of `names` that is `release`.
pub open spec fn first_named(names: Seq<Option<Seq<char>>>, release: Seq<char>, i: int) -> bool {
    &&& 0 <= i < names.len()
    &&& names[i] == Some(release)
    &&& forall|j: int| 0 <= j < i ==> #[trigger] names[j] != Some(release)
}

/// The texts of optional strings.
pub open spec fn name_texts(names: Seq<Option<String>>) -> Seq<Option<Seq<char>>> {
    names.map_values(|n: Option<String>| text_of(n))
}

/// Finds the first of `names` that is `release`.
pub fn find_release(names: &Vec<Option<String>>, release: &str) -> (found: Option<usize>)
    ensures
        match found {
            Some(i) => first_named(name_texts(names@), release@, i as int),
            None => forall|j: int|
                0 <= j < names@.len() ==> #[trigger] name_texts(names@)[j] != Some(release@),
        },
{
    let ghost all = name_texts(names@);
    let mut i: usize = 0;
    while i < names.len()
        invariant
            i <= names@.len(),
            all == name_texts(names@),
            forall|j: int| 0 <= j < i ==> #[trigger] all[j] != Some(release@),
        decreases names@.len() - i,
    {
        assert(all[i as int] == text_of(names@[i as int]));
        if let Some(name) = &names[i] {
            if same_text(name.as_str(), release) {
                return Some(i);
            }
        }
        i = i + 1;
    }
    None
}

/// The names that SOT documents give themselves.
pub open spec fn sot_names(records: Seq<RackFirmwareData>) -> Seq<Option<Seq<char>>> {
    records.map_values(|r: RackFirmwareData| json_view(r.config).text_member("Name"@))
}

/// Selects the first record whose document has a member `Name` that is `release`.
pub fn select_sot(records: Vec<RackFirmwareData>, release: &str) -> (result: Result<
    RackFirmwareData,
    RvsError,
>)
    ensures
        match result {
            Ok(record) => exists|i: int| #[trigger]
                first_named(sot_names(records@), release@, i) && record == records@[i],
            Err(e) => {
                &&& forall|j: int|
                    0 <= j < records@.len() ==> #[trigger] sot_names(records@)[j] != Some(release@)
                &&& e@ == ErrorView::InvalidArg(
                    "fetch_sot: no SOT record found for release '"@ + release@ + "'"@,
                )
            },
        },
{
    let ghost all = sot_names(records@);
    let mut names: Vec<Option<String>> = Vec::new();
    let mut i: usize = 0;
    while i < records.len()
        invariant
            i <= records@.len(),
            names@.len() == i,
            all == sot_names(records@),
            forall|j: int| 0 <= j < i ==> text_of(#[trigger] names@[j]) == all[j],
        decreases records@.len() - i,
    {
        match text_member(&records[i].config, "Name") {
            Some(name) => {
                names.push(Some(name.to_owned()));
            },
            None => {
                names.push(None);
            },
        }
        i = i + 1;
    }
    assert(name_texts(names@) =~= all);
    match find_release(&names, release) {
        Some(i) => {
            let mut records = records;
            Ok(records.swap_remove(i))
        },
        None => {
            let message = "fetch_sot: no SOT record found for release '".to_owned().concat(release);
            Err(invalid_arg(message.as_str(), "'"))
        },
    }
}

/// How the task of one download ended.
#[derive(Debug)]
pub enum TaskOutcome {
    /// The download ended by itself.
    Finished(Result<(), RvsError>),
    /// The download of this URL took too long.
    TimedOut { url: String },
    /// The task broke down; the text of the error.
    Panicked { error: String },
}

/// The result of a download task.
pub open spec fn task_result_of(outcome: TaskOutcome) -> Result<(), ErrorView> {
    match outcome {
        TaskOutcome::Finished(r) => outcome_view(r),
        TaskOutcome::TimedOut { url } => Err(
            ErrorView::Timeout("download timed out: "@ + url@),
        ),
        TaskOutcome::Panicked { error } => Err(
            ErrorView::InvalidArg("download task panicked: "@ + error@),
        ),
    }
}

/// Makes the result of a download task.
pub fn task_result(outcome: TaskOutcome) -> (result: Result<(), RvsError>)
    ensures
        outcome_view(result) == task_result_of(outcome),
        outcome matches TaskOutcome::Finished(r) ==> result == r,
        outcome is TimedOut ==> result matches Err(RvsError::Timeout(_)),
        outcome is Panicked ==> result matches Err(RvsError::InvalidArg(_)),
{
    match outcome {
        TaskOutcome::Finished(r) => r,
        TaskOutcome::TimedOut { url } => {
            Err(RvsError::Timeout("download timed out: ".to_owned().concat(url.as_str())))
        },
        TaskOutcome::Panicked { error } => {
            Err(invalid_arg("download task panicked: ", error.as_str()))
        },
    }
}

/// What to do after waiting for the next download task to end.
#[derive(Debug)]
pub enum JoinAction {
    /// Wait for the next task.
    Wait,
    /// Stop with this outcome; tasks that still run are given up.
    Finish(Result<(), RvsError>),
}

/// [`JoinAction`] by its contents.
pub enum JoinActionView {
    Wait,
    Finish(Result<(), ErrorView>),
}

impl View for JoinAction {
    type V = JoinActionView;

    open spec fn view(&self) -> JoinActionView {
        match self {
            JoinAction::Wait => JoinActionView::Wait,
            JoinAction::Finish(r) => JoinActionView::Finish(outcome_view(*r)),
        }
    }
}

/// What follows when a task has ended, or when none is left.
pub open spec fn join_action_of(joined: Option<TaskOutcome>) -> JoinActionView {
    match joined {
        Some(outcome) => match task_result_of(outcome) {
            Ok(()) => JoinActionView::Wait,
            Err(e) => JoinActionView::Finish(Err(e)),
        },
        None => JoinActionView::Finish(Ok(())),
    }
}

/// Decides what follows when a download task has ended, or when none is left: the
/// first failure ends the whole set of downloads.
pub fn after_join(joined: Option<TaskOutcome>) -> (action: JoinAction)
    ensures
        action@ == join_action_of(joined),
        joined matches Some(TaskOutcome::Finished(Err(e))) ==> action == JoinAction::Finish(Err(e)),
        action is Wait <==> (joined matches Some(TaskOutcome::Finished(r)) && r is Ok),
        joined is None ==> action == JoinAction::Finish(Ok(())),
{
    match joined {
        Some(outcome) => match task_result(outcome) {
            Ok(()) => JoinAction::Wait,
            Err(e) => JoinAction::Finish(Err(e)),
        },
        None => JoinAction::Finish(Ok(())),
    }
}

/// The outcome of a set of download tasks, given in the order in which they end,
/// when each is waited for as long as [`join_action_of`] says to.
pub open spec fn set_outcome(outcomes: Seq<TaskOutcome>) -> Result<(), ErrorView>
    decreases outcomes.len(),
{
    let joined = if outcomes.len() > 0 {
        Some(outcomes[0])
    } else {
        None
    };
    match join_action_of(joined) {
        JoinActionView::Wait => if outcomes.len() > 0 {
            set_outcome(outcomes.drop_first())
        } else {
            arbitrary()
        },
        JoinActionView::Finish(r) => r,
    }
}

/// A set of downloads succeeds if and only if every task does; otherwise it fails
/// with the error of the task that was the first to end with one.
pub proof fn law_downloads_fail_with_the_first_failure(outcomes: Seq<TaskOutcome>)
    ensures
        set_outcome(outcomes) is Ok <==> forall|i: int|
            0 <= i < outcomes.len() ==> task_result_of(#[trigger] outcomes[i]) is Ok,
        set_outcome(outcomes) is Err ==> exists|i: int|
            0 <= i < outcomes.len() && task_result_of(#[trigger] outcomes[i]) == set_outcome(
                outcomes,
            ) && forall|j: int| 0 <= j < i ==> task_result_of(#[trigger] outcomes[j]) is Ok,
    decreases outcomes.len(),
{
    if outcomes.len() > 0 {
        let rest = outcomes.drop_first();
        if task_result_of(outcomes[0]) is Ok {
            law_downloads_fail_with_the_first_failure(rest);
            if set_outcome(outcomes) is Ok {
                assert forall|i: int| 0 <= i < outcomes.len() implies task_result_of(
                    #[trigger] outcomes[i],
                ) is Ok by {
                    if i > 0 {
                        assert(task_result_of(rest[i - 1]) is Ok);
                    }
                }
            } else {
                let k = choose|k: int|
                    0 <= k < rest.len() && task_result_of(#[trigger] rest[k]) == set_outcome(rest)
                        && forall|j: int| 0 <= j < k ==> task_result_of(#[trigger] rest[j]) is Ok;
                assert(outcomes[k + 1] == rest[k]);
                assert forall|j: int| 0 <= j < k + 1 implies task_result_of(
                    #[trigger] outcomes[j],
                ) is Ok by {
                    if j > 0 {
                        assert(task_result_of(rest[j - 1]) is Ok);
                    }
                }
            }
        }
    }
}

/// A release that some record has is always found, and the record returned is the
/// earliest that has it.
pub proof fn law_known_release_has_a_first_record(
    names: Seq<Option<Seq<char>>>,
    release: Seq<char>,
    k: int,
)
    requires
        0 <= k < names.len(),
        names[k] == Some(release),
    ensures
        exists|i: int| #[trigger] first_named(names, release, i) && i <= k,
        forall|i: int, j: int| #[trigger]
            first_named(names, release, i) && #[trigger] first_named(names, release, j) ==> i == j,
    decreases k,
{
    if exists|j: int| 0 <= j < k && #[trigger] names[j] == Some(release) {
        let j = choose|j: int| 0 <= j < k && #[trigger] names[j] == Some(release);
        law_known_release_has_a_first_record(names, release, j);
    } else {
        assert(first_named(names, release, k));
    }
}

/// A task has the result of its download where the download ended: every error, of
/// whatever kind, is the error of the task. A task that was given up or broke down
/// failed.
pub proof fn law_task_hands_on_the_result_of_its_download(
    error: RvsError,
    url: String,
    reason: String,
)
    ensures
        task_result_of(TaskOutcome::Finished(Err(error))) == Err::<(), ErrorView>(error@),
        task_result_of(TaskOutcome::Finished(Ok(()))) is Ok,
        task_result_of(TaskOutcome::TimedOut { url }) == Err::<(), ErrorView>(
            ErrorView::Timeout("download timed out: "@ + url@),
        ),
        task_result_of(TaskOutcome::Panicked { error: reason }) == Err::<(), ErrorView>(
            ErrorView::InvalidArg("download task panicked: "@ + reason@),
        ),
{
}

/// The next task is waited for after a success alone; every failure ends the set of
/// downloads with its error, and the set succeeds when no task is left.
pub proof fn law_every_failed_download_ends_the_set(error: RvsError, url: String, reason: String)
    ensures
        join_action_of(None) == JoinActionView::Finish(Ok(())),
        join_action_of(Some(TaskOutcome::Finished(Ok(())))) is Wait,
        join_action_of(Some(TaskOutcome::Finished(Err(error)))) == JoinActionView::Finish(
            Err(error@),
        ),
        join_action_of(Some(TaskOutcome::TimedOut { url })) matches JoinActionView::Finish(r)
            && r is Err,
        join_action_of(Some(TaskOutcome::Panicked { error: reason })) matches JoinActionView::Finish(
            r,
        ) && r is Err,
{
}

/// A set of downloads succeeds if and only if every download ended by itself and
/// with success.
pub proof fn law_downloads_succeed_together(outcomes: Seq<TaskOutcome>)
    ensures
        set_outcome(outcomes) is Ok <==> forall|i: int|
            0 <= i < outcomes.len() ==> (#[trigger] outcomes[i] matches TaskOutcome::Finished(r)
                && r is Ok),
{
    law_downloads_fail_with_the_first_failure(outcomes);
    if set_outcome(outcomes) is Ok {
        assert forall|i: int| 0 <= i < outcomes.len() implies (
        #[trigger] outcomes[i] matches TaskOutcome::Finished(r) && r is Ok) by {
            assert(task_result_of(outcomes[i]) is Ok);
        }
    }
}

/// A set of downloads that holds a failed one fails, and where only successes ended
/// before it, it fails with the error of that download.
pub proof fn law_a_failed_download_fails_the_set(
    outcomes: Seq<TaskOutcome>,
    i: int,
    error: RvsError,
)
    requires
        0 <= i < outcomes.len(),
        outcomes[i] == TaskOutcome::Finished(Err(error)),
    ensures
        set_outcome(outcomes) is Err,
        (forall|j: int|
            0 <= j < i ==> (#[trigger] outcomes[j] matches TaskOutcome::Finished(r) && r is Ok))
            ==> set_outcome(outcomes) == Err::<(), ErrorView>(error@),
    decreases i,
{
    law_downloads_succeed_together(outcomes);
    if forall|j: int|
        0 <= j < i ==> (#[trigger] outcomes[j] matches TaskOutcome::Finished(r) && r is Ok) {
        if i > 0 {
            let rest = outcomes.drop_first();
            assert(task_result_of(outcomes[0]) is Ok);
            assert forall|j: int| 0 <= j < i - 1 implies (
            #[trigger] rest[j] matches TaskOutcome::Finished(r) && r is Ok) by {
                assert(rest[j] == outcomes[j + 1]);
            }
            law_a_failed_download_fails_the_set(rest, i - 1, error);
        }
    }
}

/// The override file is the source wherever one is set, whatever scenarios are
/// loaded.
pub proof fn law_override_file_is_the_source(ctx: RvsCtx)
    requires
        ctx.sot_override_path is Some,
    ensures
        source_of(ctx) == Ok::<SotSourceView, ErrorView>(
            SotSourceView::File(ctx.sot_override_path->0@),
        ),
{
}

/// Without an override file the source is the release of the first scenario, whatever
/// scenarios follow on it; without scenarios there is none.
pub proof fn law_first_scenario_names_the_release(
    ctx: RvsCtx,
    first: Scenario,
    rest: Seq<Scenario>,
)
    requires
        ctx.sot_override_path is None,
    ensures
        ctx.scenarios@ == seq![first] + rest ==> source_of(ctx) == Ok::<SotSourceView, ErrorView>(
            SotSourceView::Release(first.rack.sot_release@),
        ),
        ctx.scenarios@.len() == 0 ==> source_of(ctx) == Err::<SotSourceView, ErrorView>(
            ErrorView::InvalidArg("fetch_sot: no scenarios loaded"@),
        ),
{
    assert((seq![first] + rest)[0] == first);
}

/// The override file is a record under the ID `override` with the document that it
/// holds; a file that cannot be read, or holds no document, is no record.
pub proof fn law_override_file_is_a_record(text: Seq<char>, reason: Seq<char>)
    ensures
        override_of(Ok(text)) is Ok <==> json_parse(text) is Ok,
        override_of(Ok(text)) matches Ok(r) ==> r.id == "override"@ && Ok::<_, Seq<char>>(r.config)
            == json_parse(text),
        override_of(Ok(text)) matches Err(e) ==> e == ErrorView::InvalidArg(
            "invalid SOT JSON: "@ + json_parse(text)->Err_0,
        ),
        override_of(Err(reason)) == Err::<FirmwareView, ErrorView>(
            ErrorView::InvalidArg("failed to read SOT override: "@ + reason),
        ),
{
}

/// The first record of a release is a record, has exactly the name of the release,
/// and comes before every other that has.
pub proof fn law_first_record_of_a_release(
    names: Seq<Option<Seq<char>>>,
    release: Seq<char>,
    i: int,
)
    requires
        first_named(names, release, i),
    ensures
        0 <= i < names.len(),
        names[i] == Some(release),
        forall|j: int| 0 <= j < names.len() && #[trigger] names[j] == Some(release) ==> i <= j,
{
}

/// A record has a name if and only if its document is an object whose member `Name`
/// is a text, and then that text; records and names stand at the same places.
pub proof fn law_records_are_named_by_their_documents(
    records: Seq<RackFirmwareData>,
    i: int,
    name: Seq<char>,
)
    requires
        0 <= i < records.len(),
    ensures
        sot_names(records).len() == records.len(),
        sot_names(records)[i] == Some(name) <==> (json_view(records[i].config) matches Json::Object(
            o,
        ) && o.contains_key("Name"@) && o["Name"@] == Json::Text(name)),
{
}

/// The texts of names are those of the strings, place by place.
pub proof fn law_name_texts_are_those_of_the_names(names: Seq<Option<String>>, i: int)
    requires
        0 <= i < names.len(),
    ensures
        name_texts(names).len() == names.len(),
        names[i] is None ==> name_texts(names)[i] is None,
        names[i] is Some ==> name_texts(names)[i] == Some(names[i]->0@),
{
}

} // verus!
