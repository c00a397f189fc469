//! Validation scenarios.

use crate::seqs::{lemma_filter_none, lemma_filter_take};
use vstd::prelude::*;
use vstd::string::*;

verus! {

/// Rack model and SOT release that a scenario targets.
#[derive(Debug)]
pub struct RackTarget {
    pub model: String,
    pub sot_release: String,
}

/// Ephemeral OS image to boot on validation nodes.
#[derive(Debug)]
pub struct OsImage {
    pub uri: String,
}

/// Pre-cached artifact, resolved via a direct URI or a JSONPath into the SOT.
#[derive(Debug)]
pub struct Artifact {
    pub name: String,
    pub output: String,
    /// Direct download URL, meant to exclude `sotpath`.
    pub uri: Option<String>,
    /// JSONPath into the SOT document to resolve the download URL.
    pub sotpath: Option<String>,
}

/// Setup step: runs before the tests, aborts the validation on failure.
#[derive(Debug)]
pub struct SetupStep {
    pub execute: String,
}

/// Test step: its result is recorded independently under `name`.
#[derive(Debug)]
pub struct TestStep {
    pub name: String,
    pub execute: String,
}

/// Teardown step: always runs, regardless of the test outcome.
#[derive(Debug)]
pub struct TeardownStep {
    pub execute: String,
}

/// Complete rack validation scenario.
#[derive(Debug)]
pub struct Scenario {
    pub rack: RackTarget,
    pub os: OsImage,
    pub artifacts: Vec<Artifact>,
    pub setup: Vec<SetupStep>,
    pub test: Vec<TestStep>,
    pub teardown: Vec<TeardownStep>,
}

/// What came of reading and parsing a scenario file.
#[derive(Debug)]
pub enum LoadOutcome {
    /// The file could not be read; the text of the error.
    Unreadable(String),
    /// The content is no scenario; the text of the error.
    Malformed(String),
    /// The scenario in the file.
    Parsed(Scenario),
}

impl Scenario {
    /// Makes the result of loading the scenario file at `path`: the scenario, or a
    /// message that says whether reading or parsing failed, where and why.
    pub fn load(path: &str, outcome: LoadOutcome) -> (result: Result<Scenario, String>)
        ensures
            match outcome {
                LoadOutcome::Unreadable(e) => result matches Err(m) && m@ == "read "@ + path@
                    + ": "@ + e@,
                LoadOutcome::Malformed(e) => result matches Err(m) && m@ == "parse "@ + path@
                    + ": "@ + e@,
                LoadOutcome::Parsed(s) => result == Ok::<Scenario, String>(s),
            },
    {
        match outcome {
            LoadOutcome::Unreadable(e) => {
                Err("read ".to_owned().concat(path).concat(": ").concat(e.as_str()))
            },
            LoadOutcome::Malformed(e) => {
                Err("parse ".to_owned().concat(path).concat(": ").concat(e.as_str()))
            },
            LoadOutcome::Parsed(s) => Ok(s),
        }
    }
}

/// The scenarios among the results of loading, in order.
pub open spec fn loaded(results: Seq<Result<Scenario, String>>) -> Seq<Scenario> {
    results.filter(|r: Result<Scenario, String>| r is Ok).map_values(
        |r: Result<Scenario, String>| r->Ok_0,
    )
}

/// Keeps the scenarios that loaded. A file that failed is left out and does not
/// keep the others from being used.
pub fn loaded_scenarios(results: Vec<Result<Scenario, String>>) -> (scenarios: Vec<Scenario>)
    ensures
        scenarios@ == loaded(results@),
{
    let ghost p = |r: Result<Scenario, String>| r is Ok;
    let ghost f = |r: Result<Scenario, String>| r->Ok_0;
    let mut scenarios: Vec<Scenario> = Vec::new();
    proof {
        lemma_filter_none(results@, p);
    }
    assert(scenarios@ =~= results@.take(0).filter(p).map_values(f));
    for r in iter: results
        invariant
            iter.seq() == results@,
            p == |r: Result<Scenario, String>| r is Ok,
            f == |r: Result<Scenario, String>| r->Ok_0,
            scenarios@ == results@.take(iter.index()).filter(p).map_values(f),
    {
        let ghost k = iter.index();
        let ghost kept = results@.take(k).filter(p);
        proof {
            lemma_filter_take(results@, p, k);
        }
        assert(r == results@[k]);
        assert(kept.push(r).map_values(f) =~= kept.map_values(f).push(f(r)));
        if let Ok(s) = r {
            scenarios.push(s);
        }
    }
    assert(results@.take(results@.len() as int) =~= results@);
    scenarios
}

/// The OS image of a validation: that of the first scenario, or none.
pub open spec fn os_uri_of(scenarios: Seq<Scenario>) -> Seq<char> {
    if scenarios.len() > 0 {
        scenarios[0].os.uri@
    } else {
        Seq::empty()
    }
}

/// The URI of the OS image to validate with; empty where no scenario is loaded.
pub fn os_uri(scenarios: &Vec<Scenario>) -> (uri: String)
    ensures
        uri@ == os_uri_of(scenarios@),
{
    if scenarios.len() > 0 {
        scenarios[0].os.uri.clone()
    } else {
        String::new()
    }
}

/// Whether a scenario is used rests on its own file alone: what the files before
/// and after it give does not matter.
pub proof fn law_scenarios_load_independently(
    before: Seq<Result<Scenario, String>>,
    after: Seq<Result<Scenario, String>>,
)
    ensures
        loaded(before + after) == loaded(before) + loaded(after),
{
    let p = |r: Result<Scenario, String>| r is Ok;
    Seq::filter_distributes_over_add(before, after, p);
    assert(loaded(before + after) =~= loaded(before) + loaded(after));
}

/// The OS image rests on the first scenario alone: whatever follows on a scenario,
/// the image is the one of that scenario. Without scenarios there is none.
pub proof fn law_first_scenario_gives_the_os_image(first: Scenario, rest: Seq<Scenario>)
    ensures
        os_uri_of(seq![first] + rest) == first.os.uri@,
        os_uri_of(Seq::empty()).len() == 0,
{
    assert((seq![first] + rest)[0] == first);
}

/// Every file that loaded adds its scenario behind those before it, whatever the
/// scenario holds, and a file that failed adds nothing, whatever the message.
pub proof fn law_every_loaded_file_adds_its_scenario(
    results: Seq<Result<Scenario, String>>,
    scenario: Scenario,
    message: String,
)
    ensures
        loaded(Seq::empty()).len() == 0,
        loaded(results.push(Ok(scenario))) == loaded(results).push(scenario),
        loaded(results.push(Err(message))) == loaded(results),
{
    let p = |r: Result<Scenario, String>| r is Ok;
    let f = |r: Result<Scenario, String>| r->Ok_0;
    reveal(Seq::filter);
    let good = Ok::<Scenario, String>(scenario);
    assert(results.push(good).drop_last() =~= results);
    assert(results.push(Err(message)).drop_last() =~= results);
    let kept = results.filter(p);
    assert(kept.push(good).map_values(f) =~= kept.map_values(f).push(scenario));
}

} // verus!
