//! The liveness probe and the validation cycle.

use crate::ctx::RvsCtx;
use crate::scenario::{law_first_scenario_gives_the_os_image, os_uri, os_uri_of, Scenario};
use crate::text::{decimal, law_decimal_reads_back, number, push_decimal};
use vstd::prelude::*;
use vstd::string::*;
use vstd::utf8::*;

verus! {

/// A complete HTTP response with status 200 and the given body.
pub open spec fn ok_response(body: Seq<char>) -> Seq<char> {
    "HTTP/1.1 200 OK\r\nContent-Length: "@ + decimal(encode_utf8(body).len()) + "\r\n\r\n"@ + body
}

/// Makes a complete HTTP response with status 200; the content length is that of
/// the body in bytes.
pub fn http_ok(body: &str) -> (response: String)
    ensures
        response@ == ok_response(body@),
{
    let mut response = "HTTP/1.1 200 OK\r\nContent-Length: ".to_owned();
    push_decimal(&mut response, body.as_bytes().len() as u64);
    response.append("\r\n\r\n");
    response.append(body);
    response
}

/// The answer to a liveness probe.
pub fn liveness_response() -> (response: String)
    ensures
        response@ == ok_response("carbide-rvs: alive\n"@),
{
    http_ok("carbide-rvs: alive\n")
}

/// What the liveness server does after waiting for a connection.
#[derive(Clone, Copy, PartialEq, Eq, Structural, Debug)]
pub enum AcceptAction {
    /// Read the request and send the answer.
    Answer,
    /// Wait this long, then accept again.
    RetryAfter { secs: u64 },
}

/// Decides what follows on an attempt to accept a connection: a failure is no
/// reason to stop.
pub fn after_accept(accepted: bool) -> (action: AcceptAction)
    ensures
        action == (if accepted {
            AcceptAction::Answer
        } else {
            AcceptAction::RetryAfter { secs: 1 }
        }),
{
    if accepted {
        AcceptAction::Answer
    } else {
        AcceptAction::RetryAfter { secs: 1 }
    }
}

/// Where the service stands in its validation cycle.
#[derive(Clone, Copy, PartialEq, Eq, Structural, Debug)]
pub enum CycleState {
    StartServer,
    FetchRacks,
    ProcessArtifacts,
    Plan,
    /// Job number `job` of `jobs` is being validated.
    Validate { job: usize, jobs: usize },
    /// The report of job number `job` of `jobs` is being submitted.
    Submit { job: usize, jobs: usize },
    Sleep,
}

/// What the last action of the service gave.
#[derive(Clone, Copy, PartialEq, Eq, Structural, Debug)]
pub enum CycleEvent {
    /// The action is done.
    Done,
    /// The planning is done and gave this many jobs.
    Planned { jobs: usize },
}

/// What the service does next.
#[derive(Debug)]
pub enum CycleAction {
    StartCacheServer,
    FetchRacks,
    ProcessArtifacts,
    /// Partition the racks and plan their validation with this OS image.
    Plan { os_uri: String },
    Validate { job: usize },
    Submit { job: usize },
    Sleep { secs: u64 },
}

/// [`CycleAction`] by its contents.
pub enum CycleActionView {
    StartCacheServer,
    FetchRacks,
    ProcessArtifacts,
    Plan { os_uri: Seq<char> },
    Validate { job: usize },
    Submit { job: usize },
    Sleep { secs: u64 },
}

impl View for CycleAction {
    type V = CycleActionView;

    open spec fn view(&self) -> CycleActionView {
        match self {
            CycleAction::StartCacheServer => CycleActionView::StartCacheServer,
            CycleAction::FetchRacks => CycleActionView::FetchRacks,
            CycleAction::ProcessArtifacts => CycleActionView::ProcessArtifacts,
            CycleAction::Plan { os_uri } => CycleActionView::Plan { os_uri: os_uri@ },
            CycleAction::Validate { job } => CycleActionView::Validate { job: *job },
            CycleAction::Submit { job } => CycleActionView::Submit { job: *job },
            CycleAction::Sleep { secs } => CycleActionView::Sleep { secs: *secs },
        }
    }
}

/// Whether the action of a state can give an event.
pub open spec fn gives(state: CycleState, event: CycleEvent) -> bool {
    match state {
        CycleState::Plan => event is Planned,
        CycleState::Validate { job, jobs } => job < jobs && event is Done,
        CycleState::Submit { job, jobs } => job < jobs && event is Done,
        _ => event is Done,
    }
}

/// The state that follows on an event.
pub open spec fn next_state(state: CycleState, event: CycleEvent) -> CycleState {
    match (state, event) {
        (CycleState::StartServer, _) => CycleState::FetchRacks,
        (CycleState::FetchRacks, _) => CycleState::ProcessArtifacts,
        (CycleState::ProcessArtifacts, _) => CycleState::Plan,
        (CycleState::Plan, CycleEvent::Planned { jobs }) => if jobs > 0 {
            CycleState::Validate { job: 0, jobs }
        } else {
            CycleState::Sleep
        },
        (CycleState::Plan, CycleEvent::Done) => CycleState::Sleep,
        (CycleState::Validate { job, jobs }, _) => CycleState::Submit { job, jobs },
        (CycleState::Submit { job, jobs }, _) => if job + 1 < jobs {
            CycleState::Validate { job: (job + 1) as usize, jobs }
        } else {
            CycleState::Sleep
        },
        (CycleState::Sleep, _) => CycleState::FetchRacks,
    }
}

/// Where the service stands after an action has ended: in the next state, or, where
/// the action failed, stopped with its error.
pub open spec fn step<E>(state: CycleState, outcome: Result<CycleEvent, E>) -> Result<
    CycleState,
    E,
> {
    match outcome {
        Ok(event) => Ok(next_state(state, event)),
        Err(e) => Err(e),
    }
}

/// The action of a state.
pub open spec fn action_of(ctx: RvsCtx, state: CycleState) -> CycleActionView {
    match state {
        CycleState::StartServer => CycleActionView::StartCacheServer,
        CycleState::FetchRacks => CycleActionView::FetchRacks,
        CycleState::ProcessArtifacts => CycleActionView::ProcessArtifacts,
        CycleState::Plan => CycleActionView::Plan { os_uri: os_uri_of(ctx.scenarios@) },
        CycleState::Validate { job, .. } => CycleActionView::Validate { job },
        CycleState::Submit { job, .. } => CycleActionView::Submit { job },
        CycleState::Sleep => CycleActionView::Sleep { secs: ctx.cfg.poll_interval_secs },
    }
}

impl CycleState {
    /// The state in which the service starts.
    pub fn start() -> (state: CycleState)
        ensures
            state == CycleState::StartServer,
    {
        CycleState::StartServer
    }

    /// The action to perform in this state.
    pub fn action(self, ctx: &RvsCtx) -> (action: CycleAction)
        ensures
            action@ == action_of(*ctx, self),
    {
        match self {
            CycleState::StartServer => CycleAction::StartCacheServer,
            CycleState::FetchRacks => CycleAction::FetchRacks,
            CycleState::ProcessArtifacts => CycleAction::ProcessArtifacts,
            CycleState::Plan => CycleAction::Plan { os_uri: os_uri(&ctx.scenarios) },
            CycleState::Validate { job, jobs } => CycleAction::Validate { job },
            CycleState::Submit { job, jobs } => CycleAction::Submit { job },
            CycleState::Sleep => CycleAction::Sleep { secs: ctx.cfg.poll_interval_secs },
        }
    }

    /// The state after the action of this state has ended. Where the action failed the
    /// service stops and returns the error of the action, which is given back here.
    pub fn next<E>(self, outcome: Result<CycleEvent, E>) -> (result: Result<CycleState, E>)
        requires
            outcome matches Ok(event) ==> gives(self, event),
        ensures
            result == step(self, outcome),
    {
        let event = match outcome {
            Ok(event) => event,
            Err(e) => return Err(e),
        };
        let state = match (self, event) {
            (CycleState::StartServer, _) => CycleState::FetchRacks,
            (CycleState::FetchRacks, _) => CycleState::ProcessArtifacts,
            (CycleState::ProcessArtifacts, _) => CycleState::Plan,
            (CycleState::Plan, CycleEvent::Planned { jobs }) => {
                if jobs > 0 {
                    CycleState::Validate { job: 0, jobs }
                } else {
                    CycleState::Sleep
                }
            },
            (CycleState::Plan, CycleEvent::Done) => CycleState::Sleep,
            (CycleState::Validate { job, jobs }, _) => CycleState::Submit { job, jobs },
            (CycleState::Submit { job, jobs }, _) => {
                if job + 1 < jobs {
                    CycleState::Validate { job: job + 1, jobs }
                } else {
                    CycleState::Sleep
                }
            },
            (CycleState::Sleep, _) => CycleState::FetchRacks,
        };
        Ok(state)
    }
}

/// The state after `n` further successes.
pub open spec fn after_successes(state: CycleState, n: nat) -> CycleState
    decreases n,
{
    if n == 0 {
        state
    } else {
        next_state(after_successes(state, (n - 1) as nat), CycleEvent::Done)
    }
}

/// The jobs of a plan are dealt with one after the other, each validated and then
/// reported before the next one is taken up; after the last report the service
/// sleeps, and then fetches the racks anew.
pub proof fn law_every_job_is_validated_then_reported(jobs: usize, k: nat)
    requires
        k <= 2 * jobs + 1,
    ensures
        ({
            let state = after_successes(
                next_state(CycleState::Plan, CycleEvent::Planned { jobs }),
                k,
            );
            state == (if k == 2 * jobs + 1 {
                CycleState::FetchRacks
            } else if k == 2 * jobs {
                CycleState::Sleep
            } else if k % 2 == 0 {
                CycleState::Validate { job: (k / 2) as usize, jobs }
            } else {
                CycleState::Submit { job: (k / 2) as usize, jobs }
            })
        }),
    decreases k,
{
    if k > 0 {
        law_every_job_is_validated_then_reported(jobs, (k - 1) as nat);
    }
}

/// A cycle fetches the racks, processes the artifacts and plans, in this order; the
/// cache server is started once, before the first cycle.
pub proof fn law_cycle_starts_in_order()
    ensures
        after_successes(CycleState::StartServer, 1) == CycleState::FetchRacks,
        after_successes(CycleState::FetchRacks, 1) == CycleState::ProcessArtifacts,
        after_successes(CycleState::FetchRacks, 2) == CycleState::Plan,
        forall|state: CycleState, event: CycleEvent|
            gives(state, event) ==> #[trigger] next_state(state, event) != CycleState::StartServer,
{
    reveal_with_fuel(after_successes, 3);
}

/// Where the service stands after a number of actions have ended.
pub open spec fn run_of<E>(outcomes: Seq<Result<CycleEvent, E>>) -> Result<CycleState, E>
    decreases outcomes.len(),
{
    if outcomes.len() == 0 {
        Ok(CycleState::StartServer)
    } else {
        match run_of(outcomes.drop_last()) {
            Ok(state) => step(state, outcomes.last()),
            Err(e) => Err(e),
        }
    }
}

/// Whether the outcomes can come one after the other: each belongs to an action that
/// the service took up, and an event is one that the action can give.
pub open spec fn can_come<E>(outcomes: Seq<Result<CycleEvent, E>>) -> bool
    decreases outcomes.len(),
{
    outcomes.len() > 0 ==> {
        &&& can_come(outcomes.drop_last())
        &&& run_of(outcomes.drop_last()) matches Ok(state) && (outcomes.last() matches Ok(event)
            ==> gives(state, event))
    }
}

/// The service stops on a failure and on nothing else: at once, for good, and with
/// the error of the action that failed.
pub proof fn law_only_a_failure_stops<E>(outcomes: Seq<Result<CycleEvent, E>>)
    requires
        can_come(outcomes),
    ensures
        run_of(outcomes) is Err <==> outcomes.len() > 0 && outcomes.last() is Err,
        run_of(outcomes) matches Err(e) ==> outcomes.last() == Err::<CycleEvent, E>(e),
        forall|i: int| 0 <= i < outcomes.len() - 1 ==> (#[trigger] outcomes[i]) is Ok,
    decreases outcomes.len(),
{
    if outcomes.len() > 0 {
        let before = outcomes.drop_last();
        law_only_a_failure_stops(before);
        assert forall|i: int| 0 <= i < outcomes.len() - 1 implies (#[trigger] outcomes[i]) is Ok by {
            assert(outcomes[i] == before[i]);
        }
    }
}

/// A response reports success, gives the length of the body in bytes as a decimal
/// number and ends with the body, behind an empty line.
pub proof fn law_response_frames_the_body(body: Seq<char>)
    ensures
        ({
            let head = "HTTP/1.1 200 OK\r\nContent-Length: "@;
            let tail = "\r\n\r\n"@ + body;
            let response = ok_response(body);
            let digits = response.subrange(head.len() as int, response.len() - tail.len());
            &&& response == head + digits + tail
            &&& number(digits) == encode_utf8(body).len()
            &&& forall|i: int| 0 <= i < digits.len() ==> '0' <= #[trigger] digits[i] <= '9'
            &&& digits.len() > 1 ==> digits[0] != '0'
            &&& digits.len() > 0
        }),
{
    let head = "HTTP/1.1 200 OK\r\nContent-Length: "@;
    let tail = "\r\n\r\n"@ + body;
    let response = ok_response(body);
    let n = encode_utf8(body).len();
    law_decimal_reads_back(n);
    assert(response =~= head + decimal(n) + tail);
    assert(response.subrange(head.len() as int, response.len() - tail.len()) =~= decimal(n));
}

/// Each state has its action: the plan is made with the OS image of the first
/// scenario, whatever scenarios follow on it, a job is validated and reported under
/// its own number, and the pause is the configured one.
pub proof fn law_every_state_has_its_action(
    ctx: RvsCtx,
    first: Scenario,
    rest: Seq<Scenario>,
    job: usize,
    jobs: usize,
)
    ensures
        action_of(ctx, CycleState::StartServer) is StartCacheServer,
        action_of(ctx, CycleState::FetchRacks) is FetchRacks,
        action_of(ctx, CycleState::ProcessArtifacts) is ProcessArtifacts,
        ctx.scenarios@ == seq![first] + rest ==> action_of(ctx, CycleState::Plan)
            == (CycleActionView::Plan { os_uri: first.os.uri@ }),
        ctx.scenarios@.len() == 0 ==> (action_of(ctx, CycleState::Plan) matches CycleActionView::Plan {
            os_uri,
        } && os_uri.len() == 0),
        action_of(ctx, CycleState::Validate { job, jobs }) == (CycleActionView::Validate { job }),
        action_of(ctx, CycleState::Submit { job, jobs }) == (CycleActionView::Submit { job }),
        action_of(ctx, CycleState::Sleep) == (CycleActionView::Sleep {
            secs: ctx.cfg.poll_interval_secs,
        }),
{
    law_first_scenario_gives_the_os_image(first, rest);
    if ctx.scenarios@.len() == 0 {
        assert(ctx.scenarios@ =~= Seq::empty());
    }
}

/// The racks are fetched, the artifacts processed, and a plan made. A plan with jobs
/// leads to the first of them, one without to sleep. A job that was validated is
/// reported next, whichever it is; after the report the following job is validated,
/// and after the last one the service sleeps and starts anew.
pub proof fn law_jobs_follow_on_each_other(job: usize, jobs: usize)
    ensures
        job < jobs ==> next_state(CycleState::Validate { job, jobs }, CycleEvent::Done)
            == (CycleState::Submit { job, jobs }),
        job + 1 < jobs ==> next_state(CycleState::Submit { job, jobs }, CycleEvent::Done)
            == (CycleState::Validate { job: (job + 1) as usize, jobs }),
        job + 1 == jobs ==> next_state(CycleState::Submit { job, jobs }, CycleEvent::Done)
            == CycleState::Sleep,
        next_state(CycleState::Plan, CycleEvent::Planned { jobs }) == if jobs == 0 {
            CycleState::Sleep
        } else {
            CycleState::Validate { job: 0, jobs }
        },
        next_state(CycleState::Sleep, CycleEvent::Done) == CycleState::FetchRacks,
        next_state(CycleState::StartServer, CycleEvent::Done) == CycleState::FetchRacks,
        next_state(CycleState::FetchRacks, CycleEvent::Done) == CycleState::ProcessArtifacts,
        next_state(CycleState::ProcessArtifacts, CycleEvent::Done) == CycleState::Plan,
{
}

/// Whatever an action can give is taken in: a plan with any number of jobs, and the
/// end of every other action.
pub proof fn law_every_event_is_taken(jobs: usize, job: usize)
    ensures
        gives(CycleState::Plan, CycleEvent::Planned { jobs }),
        gives(CycleState::StartServer, CycleEvent::Done),
        gives(CycleState::FetchRacks, CycleEvent::Done),
        gives(CycleState::ProcessArtifacts, CycleEvent::Done),
        gives(CycleState::Sleep, CycleEvent::Done),
        job < jobs ==> gives(CycleState::Validate { job, jobs }, CycleEvent::Done),
        job < jobs ==> gives(CycleState::Submit { job, jobs }, CycleEvent::Done),
{
}

/// Every error stops the service, in every state, and is the one that it returns; an
/// action that succeeded never stops it.
pub proof fn law_every_error_is_handed_on<E>(state: CycleState, event: CycleEvent, error: E)
    ensures
        step(state, Err::<CycleEvent, E>(error)) == Err::<CycleState, E>(error),
        step(state, Ok::<CycleEvent, E>(event)) == Ok::<CycleState, E>(next_state(state, event)),
{
}

/// What is seen of an action is its kind and all that it holds.
pub proof fn law_cycle_actions_are_seen_as_they_are(action: CycleAction)
    ensures
        action is StartCacheServer <==> action@ is StartCacheServer,
        action is FetchRacks <==> action@ is FetchRacks,
        action is ProcessArtifacts <==> action@ is ProcessArtifacts,
        action matches CycleAction::Plan { os_uri } ==> action@ == (CycleActionView::Plan {
            os_uri: os_uri@,
        }),
        action matches CycleAction::Validate { job } ==> action@ == (CycleActionView::Validate {
            job,
        }),
        action matches CycleAction::Submit { job } ==> action@ == (CycleActionView::Submit { job }),
        action matches CycleAction::Sleep { secs } ==> action@ == (CycleActionView::Sleep { secs }),
{
}

} // verus!
