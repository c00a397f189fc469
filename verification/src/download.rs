//! The download of one artifact into the cache, as a sequence of actions to
//! perform and events to report back.

use crate::digest::{sha256, Content, CONTENT_LIMIT};
use crate::error::{invalid_arg, outcome_view, ErrorView, RvsError};
use crate::text::{hex, same_text, text_of, to_hex};
use vstd::prelude::*;
use vstd::string::*;

verus! {

/// A resolved artifact ready to be downloaded.
#[derive(Debug)]
pub struct ArtifactDownload {
    /// Destination path below the cache directory.
    pub output_path: String,
    /// Source URL to download from.
    pub url: String,
}

/// The response header that announces the SHA-256 checksum of the body.
pub const CHECKSUM_HEADER: &'static str = "x-checksum-sha256";

/// The text of an HTTP status code: the code and its reason phrase.
pub uninterp spec fn status_text(code: u16) -> Seq<char>;

/// Trusted: the `Display` text of the `reqwest::StatusCode` with the given code,
/// named by [`status_text`]. Status codes have three digits.
#[verifier::external_body]
fn print_status(code: u16) -> (text: String)
    requires
        100 <= code <= 999,
    ensures
        text@ == status_text(code),
{
    reqwest::StatusCode::from_u16(code).unwrap().to_string()
}

/// Whether a byte may stand in the text of a header: visible ASCII, space or tab.
pub open spec fn is_header_text(b: u8) -> bool {
    32 <= b < 127 || b == 9
}

/// The character of an ASCII byte, in lower case.
pub open spec fn lower_char(b: u8) -> char {
    if 65 <= b <= 90 {
        (b + 32) as char
    } else {
        b as char
    }
}

/// The checksum that a response announces in its [`CHECKSUM_HEADER`]: the text of the
/// header in lower case. A header that holds more than text announces nothing.
pub open spec fn checksum_of(header: Option<Seq<u8>>) -> Option<Seq<char>> {
    match header {
        Some(value) => if forall|i: int| 0 <= i < value.len() ==> is_header_text(#[trigger] value[i]) {
            Some(value.map_values(|b: u8| lower_char(b)))
        } else {
            None
        },
        None => None,
    }
}

/// The bytes of an optional vector.
pub open spec fn bytes_of(v: Option<Vec<u8>>) -> Option<Seq<u8>> {
    match v {
        Some(b) => Some(b@),
        None => None,
    }
}

/// Reads the announced checksum from the value of the checksum header.
pub fn expected_checksum(header: &Option<Vec<u8>>) -> (expected: Option<String>)
    ensures
        text_of(expected) == checksum_of(bytes_of(*header)),
        header is None ==> expected is None,
        header matches Some(value) ==> text_of(expected) == checksum_of(Some(value@)),
{
    let value = match header {
        Some(value) => value,
        None => {
            return None;
        },
    };
    let mut text = String::new();
    let mut i: usize = 0;
    while i < value.len()
        invariant
            i <= value@.len(),
            text@ == value@.take(i as int).map_values(|b: u8| lower_char(b)),
            forall|j: int| 0 <= j < i ==> is_header_text(#[trigger] value@[j]),
            bytes_of(*header) == Some(value@),
        decreases value@.len() - i,
    {
        let b = value[i];
        if !(32 <= b && b < 127 || b == 9) {
            assert(!is_header_text(value@[i as int]));
            return None;
        }
        if 65 <= b && b <= 90 {
            text.push((b + 32) as char);
        } else {
            text.push(b as char);
        }
        i = i + 1;
        assert(text@ =~= value@.take(i as int).map_values(|b: u8| lower_char(b)));
    }
    assert(value@.take(value@.len() as int) =~= value@);
    Some(text)
}

/// The letter case of an announced checksum does not matter.
pub proof fn law_checksum_case_is_ignored(a: Seq<u8>, b: Seq<u8>)
    requires
        a.len() == b.len(),
        forall|i: int| 0 <= i < a.len() ==> lower_char(#[trigger] a[i]) == lower_char(b[i]),
    ensures
        checksum_of(Some(a)) == checksum_of(Some(b)),
{
    assert forall|i: int| 0 <= i < a.len() implies is_header_text(#[trigger] a[i])
        == is_header_text(b[i]) by {
        assert(lower_char(a[i]) == lower_char(b[i]));
    }
    if forall|i: int| 0 <= i < a.len() ==> is_header_text(#[trigger] a[i]) {
        assert forall|i: int| 0 <= i < b.len() implies is_header_text(#[trigger] b[i]) by {
            assert(is_header_text(a[i]));
        }
    } else {
        let i = choose|i: int| 0 <= i < a.len() && !is_header_text(#[trigger] a[i]);
        assert(!is_header_text(b[i]));
    }
    assert(a.map_values(|x: u8| lower_char(x)) =~= b.map_values(|x: u8| lower_char(x)));
}

/// Whether a status code reports success.
pub open spec fn is_success(code: u16) -> bool {
    200 <= code < 300
}

/// The outcome of comparing an announced checksum with a digest.
pub open spec fn compared(
    path: Seq<char>,
    expected: Option<Seq<char>>,
    digest: Seq<u8>,
) -> Result<(), ErrorView> {
    match expected {
        Some(e) => if hex(digest) == e {
            Ok(())
        } else {
            Err(ErrorView::ChecksumMismatch { path, expected: e, actual: hex(digest) })
        },
        None => Ok(()),
    }
}

/// Compares an announced checksum with the digest of the content; where none is
/// announced any content will do.
pub fn compare_checksum(path: &str, expected: Option<String>, digest: &Vec<u8>) -> (outcome: Result<
    (),
    RvsError,
>)
    ensures
        outcome_view(outcome) == compared(path@, text_of(expected), digest@),
{
    match expected {
        Some(expected) => {
            let actual = to_hex(digest);
            if same_text(actual.as_str(), expected.as_str()) {
                Ok(())
            } else {
                Err(RvsError::ChecksumMismatch { path: path.to_owned(), expected, actual })
            }
        },
        None => Ok(()),
    }
}

/// What happened to a download.
#[derive(Debug)]
pub enum DownloadEvent {
    /// The cache was looked up.
    CacheChecked { exists: bool },
    /// The parent directory is there.
    DirReady,
    /// The request failed; the text of the error.
    RequestFailed(String),
    /// The head of the response arrived: the status code and the value of its
    /// [`CHECKSUM_HEADER`], where it has one.
    ResponseReceived { status: u16, checksum: Option<Vec<u8>> },
    /// The destination file was created.
    FileCreated,
    /// A piece of the body arrived.
    ChunkReceived(Vec<u8>),
    /// Reading the body failed; the text of the error.
    StreamFailed(String),
    /// The piece was written.
    ChunkWritten,
    /// The body is complete.
    StreamEnded,
    /// A file operation failed; the text of the error.
    IoFailed(String),
}

/// What to do next for a download.
#[derive(Debug)]
pub enum DownloadAction {
    /// Look whether the destination file exists.
    CheckCache,
    /// Create the parent directory of the destination file, if it has one.
    CreateDir,
    /// Send the request for the URL.
    SendRequest,
    /// Create the destination file.
    CreateFile,
    /// Wait for the next piece of the body.
    ReadChunk,
    /// Append the piece to the destination file.
    WriteChunk(Vec<u8>),
    /// Stop with this outcome.
    Finish(Result<(), RvsError>),
}

/// Where a download stands.
pub enum DownloadState {
    CheckCache,
    CreateDir,
    SendRequest,
    CreateFile { expected: Option<String> },
    Read { expected: Option<String>, content: Content },
    Write { expected: Option<String>, content: Content },
    Finished,
}

/// [`DownloadEvent`] by its contents.
pub enum EventView {
    CacheChecked { exists: bool },
    DirReady,
    RequestFailed(Seq<char>),
    ResponseReceived { status: u16, checksum: Option<Seq<u8>> },
    FileCreated,
    ChunkReceived(Seq<u8>),
    StreamFailed(Seq<char>),
    ChunkWritten,
    StreamEnded,
    IoFailed(Seq<char>),
}

/// [`DownloadAction`] by its contents.
pub enum ActionView {
    CheckCache,
    CreateDir,
    SendRequest,
    CreateFile,
    ReadChunk,
    WriteChunk(Seq<u8>),
    Finish(Result<(), ErrorView>),
}

/// [`DownloadState`] by its contents: the announced checksum and the body so far.
pub enum StateView {
    CheckCache,
    CreateDir,
    SendRequest,
    CreateFile { expected: Option<Seq<char>> },
    Read { expected: Option<Seq<char>>, body: Seq<u8> },
    Write { expected: Option<Seq<char>>, body: Seq<u8> },
    Finished,
}

impl View for DownloadEvent {
    type V = EventView;

    open spec fn view(&self) -> EventView {
        match self {
            DownloadEvent::CacheChecked { exists } => EventView::CacheChecked { exists: *exists },
            DownloadEvent::DirReady => EventView::DirReady,
            DownloadEvent::RequestFailed(e) => EventView::RequestFailed(e@),
            DownloadEvent::ResponseReceived { status, checksum } => {
                EventView::ResponseReceived { status: *status, checksum: bytes_of(*checksum) }
            },
            DownloadEvent::FileCreated => EventView::FileCreated,
            DownloadEvent::ChunkReceived(c) => EventView::ChunkReceived(c@),
            DownloadEvent::StreamFailed(e) => EventView::StreamFailed(e@),
            DownloadEvent::ChunkWritten => EventView::ChunkWritten,
            DownloadEvent::StreamEnded => EventView::StreamEnded,
            DownloadEvent::IoFailed(e) => EventView::IoFailed(e@),
        }
    }
}

impl View for DownloadAction {
    type V = ActionView;

    open spec fn view(&self) -> ActionView {
        match self {
            DownloadAction::CheckCache => ActionView::CheckCache,
            DownloadAction::CreateDir => ActionView::CreateDir,
            DownloadAction::SendRequest => ActionView::SendRequest,
            DownloadAction::CreateFile => ActionView::CreateFile,
            DownloadAction::ReadChunk => ActionView::ReadChunk,
            DownloadAction::WriteChunk(c) => ActionView::WriteChunk(c@),
            DownloadAction::Finish(o) => ActionView::Finish(outcome_view(*o)),
        }
    }
}

impl View for DownloadState {
    type V = StateView;

    open spec fn view(&self) -> StateView {
        match self {
            DownloadState::CheckCache => StateView::CheckCache,
            DownloadState::CreateDir => StateView::CreateDir,
            DownloadState::SendRequest => StateView::SendRequest,
            DownloadState::CreateFile { expected } => {
                StateView::CreateFile { expected: text_of(*expected) }
            },
            DownloadState::Read { expected, content } => {
                StateView::Read { expected: text_of(*expected), body: content@ }
            },
            DownloadState::Write { expected, content } => {
                StateView::Write { expected: text_of(*expected), body: content@ }
            },
            DownloadState::Finished => StateView::Finished,
        }
    }
}

/// Whether an event can happen in a state: it answers the action that the state
/// waits for.
pub open spec fn answers(state: StateView, event: EventView) -> bool {
    match state {
        StateView::CheckCache => event is CacheChecked,
        StateView::CreateDir => event is DirReady || event is IoFailed,
        StateView::SendRequest => event is RequestFailed || (
        event matches EventView::ResponseReceived { status, .. } && 100 <= status <= 999),
        StateView::CreateFile { .. } => event is FileCreated || event is IoFailed,
        StateView::Read { body, .. } => event is StreamFailed || event is StreamEnded || (
        event matches EventView::ChunkReceived(c) && body.len() + c.len() < CONTENT_LIMIT),
        StateView::Write { .. } => event is ChunkWritten || event is IoFailed,
        StateView::Finished => false,
    }
}

/// The end of a download with an outcome.
pub open spec fn finish(outcome: Result<(), ErrorView>) -> (StateView, ActionView) {
    (StateView::Finished, ActionView::Finish(outcome))
}

/// What follows on an event: the next state and the next action.
pub open spec fn following(
    path: Seq<char>,
    url: Seq<char>,
    state: StateView,
    event: EventView,
) -> (StateView, ActionView) {
    match (state, event) {
        (StateView::CheckCache, EventView::CacheChecked { exists }) => if exists {
            finish(Ok(()))
        } else {
            (StateView::CreateDir, ActionView::CreateDir)
        },
        (StateView::CreateDir, EventView::DirReady) => {
            (StateView::SendRequest, ActionView::SendRequest)
        },
        (StateView::SendRequest, EventView::RequestFailed(e)) => finish(
            Err(ErrorView::InvalidArg("download failed for "@ + url + ": "@ + e)),
        ),
        (StateView::SendRequest, EventView::ResponseReceived { status, checksum }) => if is_success(
            status,
        ) {
            (StateView::CreateFile { expected: checksum_of(checksum) }, ActionView::CreateFile)
        } else {
            finish(
                Err(
                    ErrorView::InvalidArg("download "@ + url + ": HTTP "@ + status_text(status)),
                ),
            )
        },
        (StateView::CreateFile { expected }, EventView::FileCreated) => {
            (StateView::Read { expected, body: Seq::empty() }, ActionView::ReadChunk)
        },
        (StateView::Read { expected, body }, EventView::ChunkReceived(c)) => {
            (StateView::Write { expected, body: body + c }, ActionView::WriteChunk(c))
        },
        (StateView::Read { expected, body }, EventView::StreamFailed(e)) => finish(
            Err(ErrorView::InvalidArg("stream error for "@ + url + ": "@ + e)),
        ),
        (StateView::Read { expected, body }, EventView::StreamEnded) => finish(
            compared(path, expected, sha256(body)),
        ),
        (StateView::Write { expected, body }, EventView::ChunkWritten) => {
            (StateView::Read { expected, body }, ActionView::ReadChunk)
        },
        (_, EventView::IoFailed(e)) => finish(Err(ErrorView::Io(e))),
        _ => arbitrary(),
    }
}

/// An error on a URL: what failed, the URL and the reason.
fn url_error(what: &str, url: &str, reason: &str, detail: &str) -> (e: RvsError)
    ensures
        e@ == ErrorView::InvalidArg(what@ + url@ + reason@ + detail@),
{
    let message = what.to_owned().concat(url).concat(reason);
    invalid_arg(message.as_str(), detail)
}

/// The error for a response whose status, given by its text, is no success.
pub fn status_error(url: &str, status: &str) -> (e: RvsError)
    ensures
        e@ == ErrorView::InvalidArg("download "@ + url@ + ": HTTP "@ + status@),
{
    url_error("download ", url, ": HTTP ", status)
}

impl DownloadState {
    /// The first state and action of a download.
    pub fn start() -> (first: (DownloadState, DownloadAction))
        ensures
            first.0@ == StateView::CheckCache,
            first.1@ == ActionView::CheckCache,
    {
        (DownloadState::CheckCache, DownloadAction::CheckCache)
    }

    /// Whether a piece of `n` bytes can be taken in.
    pub fn accepts_chunk(&self, n: usize) -> (accepts: bool)
        ensures
            accepts == (self@ matches StateView::Read { body, .. } && body.len() + n
                < CONTENT_LIMIT),
    {
        match self {
            DownloadState::Read { expected, content } => content.fits(n),
            _ => false,
        }
    }

    /// Takes in an event and gives the next state and action.
    pub fn next(self, artifact: &ArtifactDownload, event: DownloadEvent) -> (step: (
        DownloadState,
        DownloadAction,
    ))
        requires
            answers(self@, event@),
        ensures
            (step.0@, step.1@) == following(artifact.output_path@, artifact.url@, self@, event@),
    {
        let url = artifact.url.as_str();
        match (self, event) {
            (DownloadState::CheckCache, DownloadEvent::CacheChecked { exists }) => {
                if exists {
                    (DownloadState::Finished, DownloadAction::Finish(Ok(())))
                } else {
                    (DownloadState::CreateDir, DownloadAction::CreateDir)
                }
            },
            (DownloadState::CreateDir, DownloadEvent::DirReady) => {
                (DownloadState::SendRequest, DownloadAction::SendRequest)
            },
            (DownloadState::SendRequest, DownloadEvent::RequestFailed(e)) => {
                let e = url_error("download failed for ", url, ": ", e.as_str());
                (DownloadState::Finished, DownloadAction::Finish(Err(e)))
            },
            (DownloadState::SendRequest, DownloadEvent::ResponseReceived { status, checksum }) => {
                if 200 <= status && status < 300 {
                    let expected = expected_checksum(&checksum);
                    (DownloadState::CreateFile { expected }, DownloadAction::CreateFile)
                } else {
                    let e = status_error(url, print_status(status).as_str());
                    (DownloadState::Finished, DownloadAction::Finish(Err(e)))
                }
            },
            (DownloadState::CreateFile { expected }, DownloadEvent::FileCreated) => {
                let content = Content::new();
                (DownloadState::Read { expected, content }, DownloadAction::ReadChunk)
            },
            (DownloadState::Read { expected, content }, DownloadEvent::ChunkReceived(c)) => {
                let content = content.with(&c);
                (DownloadState::Write { expected, content }, DownloadAction::WriteChunk(c))
            },
            (DownloadState::Read { expected, content }, DownloadEvent::StreamFailed(e)) => {
                let e = url_error("stream error for ", url, ": ", e.as_str());
                (DownloadState::Finished, DownloadAction::Finish(Err(e)))
            },
            (DownloadState::Read { expected, content }, DownloadEvent::StreamEnded) => {
                let digest = content.digest();
                let outcome = compare_checksum(artifact.output_path.as_str(), expected, &digest);
                (DownloadState::Finished, DownloadAction::Finish(outcome))
            },
            (DownloadState::Write { expected, content }, DownloadEvent::ChunkWritten) => {
                (DownloadState::Read { expected, content }, DownloadAction::ReadChunk)
            },
            (_, DownloadEvent::IoFailed(e)) => {
                (DownloadState::Finished, DownloadAction::Finish(Err(RvsError::Io(e))))
            },
            _ => vstd::pervasive::unreached(),
        }
    }
}

/// The state of a download after a sequence of events.
pub open spec fn reached(path: Seq<char>, url: Seq<char>, events: Seq<EventView>) -> StateView
    decreases events.len(),
{
    if events.len() == 0 {
        StateView::CheckCache
    } else {
        following(path, url, reached(path, url, events.drop_last()), events.last()).0
    }
}

/// The action that the last of a sequence of events calls for.
pub open spec fn called_for(path: Seq<char>, url: Seq<char>, events: Seq<EventView>) -> ActionView {
    if events.len() == 0 {
        ActionView::CheckCache
    } else {
        following(path, url, reached(path, url, events.drop_last()), events.last()).1
    }
}

/// Whether a sequence of events can happen: each answers the action before it.
pub open spec fn can_happen(path: Seq<char>, url: Seq<char>, events: Seq<EventView>) -> bool
    decreases events.len(),
{
    events.len() == 0 || {
        &&& can_happen(path, url, events.drop_last())
        &&& answers(reached(path, url, events.drop_last()), events.last())
    }
}

/// The bytes that a sequence of events has had appended to the destination file.
pub open spec fn written(path: Seq<char>, url: Seq<char>, events: Seq<EventView>) -> Seq<u8>
    decreases events.len(),
{
    if events.len() == 0 {
        Seq::empty()
    } else {
        let before = written(path, url, events.drop_last());
        match called_for(path, url, events) {
            ActionView::WriteChunk(c) => before + c,
            _ => before,
        }
    }
}

/// The bytes of the body that have arrived, in order.
pub open spec fn arrived(events: Seq<EventView>) -> Seq<u8>
    decreases events.len(),
{
    if events.len() == 0 {
        Seq::empty()
    } else {
        match events.last() {
            EventView::ChunkReceived(c) => arrived(events.drop_last()) + c,
            _ => arrived(events.drop_last()),
        }
    }
}

/// What is written to the file is what arrived of the body, every byte once and in
/// order.
pub proof fn law_file_holds_the_body(path: Seq<char>, url: Seq<char>, events: Seq<EventView>)
    requires
        can_happen(path, url, events),
    ensures
        written(path, url, events) == arrived(events),
    decreases events.len(),
{
    if events.len() > 0 {
        law_file_holds_the_body(path, url, events.drop_last());
    }
}

/// Whether some event is a successful response that announces `expected`.
pub open spec fn announced(events: Seq<EventView>, expected: Option<Seq<char>>) -> bool {
    exists|i: int|
        0 <= i < events.len() && (#[trigger] events[i] matches EventView::ResponseReceived {
            status,
            checksum,
        } && is_success(status) && checksum_of(checksum) == expected)
}

/// An announcement stays one when a further event happens.
proof fn lemma_announced_before(events: Seq<EventView>, expected: Option<Seq<char>>)
    requires
        events.len() > 0,
        announced(events.drop_last(), expected),
    ensures
        announced(events, expected),
{
    let before = events.drop_last();
    let i = choose|i: int|
        0 <= i < before.len() && (#[trigger] before[i] matches EventView::ResponseReceived {
            status,
            checksum,
        } && is_success(status) && checksum_of(checksum) == expected);
    assert(events[i] == before[i]);
}

/// The state of a download holds what was written and what was announced: the body
/// so far is the content of the file, before the file is created nothing is
/// written, and the expected checksum is that of a successful response.
pub proof fn law_state_follows_file_and_response(
    path: Seq<char>,
    url: Seq<char>,
    events: Seq<EventView>,
)
    requires
        can_happen(path, url, events),
    ensures
        match reached(path, url, events) {
            StateView::Read { expected, body } => body == written(path, url, events) && announced(
                events,
                expected,
            ),
            StateView::Write { expected, body } => body == written(path, url, events) && announced(
                events,
                expected,
            ),
            StateView::CreateFile { expected } => written(path, url, events).len() == 0
                && announced(events, expected),
            StateView::Finished => true,
            _ => written(path, url, events).len() == 0,
        },
    decreases events.len(),
{
    if events.len() > 0 {
        let before = events.drop_last();
        law_state_follows_file_and_response(path, url, before);
        let state = reached(path, url, before);
        assert forall|expected: Option<Seq<char>>|
            announced(before, expected) implies announced(events, expected) by {
            lemma_announced_before(events, expected);
        }
        if let EventView::ResponseReceived { status, checksum } = events.last() {
            if is_success(status) {
                assert(events[events.len() - 1] == events.last());
                assert(announced(events, checksum_of(checksum)));
            }
        }
        if let StateView::CreateFile { .. } = state {
            assert(written(path, url, before) =~= Seq::empty());
        }
    }
}

/// A download succeeds in two ways only. Either the file was in the cache, and
/// nothing else happened; or the response was a success, its whole body was written
/// in order, and the SHA-256 digest of what was written is the announced checksum
/// where one was announced.
pub proof fn law_success_means_cached_or_checked(
    path: Seq<char>,
    url: Seq<char>,
    events: Seq<EventView>,
)
    requires
        can_happen(path, url, events),
        called_for(path, url, events) == ActionView::Finish(Ok(())),
    ensures
        events == seq![EventView::CacheChecked { exists: true }] || {
            &&& events.last() == EventView::StreamEnded
            &&& exists|expected: Option<Seq<char>>| #[trigger]
                announced(events, expected) && (expected matches Some(e) ==> hex(
                    sha256(written(path, url, events)),
                ) == e)
        },
{
    let before = events.drop_last();
    let state = reached(path, url, before);
    law_state_follows_file_and_response(path, url, before);
    match state {
        StateView::CheckCache => {
            lemma_cache_is_checked_first(path, url, before);
            assert(events =~= seq![EventView::CacheChecked { exists: true }]);
        },
        StateView::Read { expected, body } => {
            lemma_announced_before(events, expected);
        },
        _ => {},
    }
}

/// A download waits for the cache only before anything has happened.
proof fn lemma_cache_is_checked_first(path: Seq<char>, url: Seq<char>, events: Seq<EventView>)
    requires
        can_happen(path, url, events),
        reached(path, url, events) == StateView::CheckCache,
    ensures
        events.len() == 0,
{
    if events.len() > 0 {
        let state = reached(path, url, events.drop_last());
        assert(answers(state, events.last()));
    }
}

/// A cached artifact is not fetched: once the file is found in the cache the
/// download is over, with success and nothing written.
pub proof fn law_cached_artifact_is_not_fetched(
    path: Seq<char>,
    url: Seq<char>,
    events: Seq<EventView>,
)
    requires
        can_happen(path, url, events),
        events.len() > 0,
        events[0] == (EventView::CacheChecked { exists: true }),
    ensures
        events.len() == 1,
        called_for(path, url, events) == ActionView::Finish(Ok(())),
        written(path, url, events).len() == 0,
    decreases events.len(),
{
    let before = events.drop_last();
    if before.len() > 0 {
        assert(before[0] == events[0]);
        law_cached_artifact_is_not_fetched(path, url, before);
        assert(before.drop_last() =~= Seq::empty());
        assert(before.last() == before[0]);
        assert(reached(path, url, before) == StateView::Finished);
        assert(answers(reached(path, url, before), events.last()));
    } else {
        assert(before =~= Seq::empty());
        assert(events.last() == events[0]);
        assert(written(path, url, before).len() == 0);
    }
}

/// A response that is no success ends the download with an error, before any file
/// is created and with nothing written.
pub proof fn law_failed_response_writes_nothing(
    path: Seq<char>,
    url: Seq<char>,
    events: Seq<EventView>,
    status: u16,
    checksum: Option<Seq<u8>>,
)
    requires
        can_happen(path, url, events),
        events.len() > 0,
        events.last() == (EventView::ResponseReceived { status, checksum }),
        !is_success(status),
    ensures
        called_for(path, url, events) == ActionView::Finish(
            Err(ErrorView::InvalidArg("download "@ + url + ": HTTP "@ + status_text(status))),
        ),
        written(path, url, events).len() == 0,
{
    law_state_follows_file_and_response(path, url, events.drop_last());
}

/// The status codes from 200 up to 299 report success, and no others.
pub proof fn law_success_is_a_status_from_200_to_299(code: u16)
    ensures
        code < 200 || code > 299 ==> !is_success(code),
        200 <= code && code <= 299 ==> is_success(code),
{
}

/// A response with a status below 200 or from 300 up ends the download with an error
/// that names the URL and the status: no file has been created, and nothing written.
pub proof fn law_refused_status_creates_no_file(
    path: Seq<char>,
    url: Seq<char>,
    events: Seq<EventView>,
    status: u16,
    checksum: Option<Seq<u8>>,
)
    requires
        can_happen(path, url, events),
        events.len() > 0,
        events.last() == (EventView::ResponseReceived { status, checksum }),
        status < 200 || status >= 300,
    ensures
        called_for(path, url, events) == ActionView::Finish(
            Err(ErrorView::InvalidArg("download "@ + url + ": HTTP "@ + status_text(status))),
        ),
        forall|n: int|
            0 <= n <= events.len() ==> !(called_for(path, url, #[trigger] events.take(
                n,
            )) is CreateFile),
        written(path, url, events).len() == 0,
        forall|event: EventView| !can_happen(path, url, #[trigger] events.push(event)),
{
    let before = events.drop_last();
    law_failed_response_writes_nothing(path, url, events, status, checksum);
    assert forall|n: int| 0 <= n <= events.len() implies !(called_for(
        path,
        url,
        #[trigger] events.take(n),
    ) is CreateFile) by {
        if n == events.len() {
            assert(events.take(n) =~= events);
        } else {
            assert(events.take(n) =~= before.take(n));
            lemma_no_file_before_the_response(path, url, before, n);
        }
    }
    assert forall|event: EventView| !can_happen(path, url, #[trigger] events.push(event)) by {
        assert(events.push(event).drop_last() =~= events);
    }
}

/// Until the response has arrived no file is created.
proof fn lemma_no_file_before_the_response(
    path: Seq<char>,
    url: Seq<char>,
    events: Seq<EventView>,
    n: int,
)
    requires
        can_happen(path, url, events),
        reached(path, url, events) is CheckCache || reached(path, url, events) is CreateDir
            || reached(path, url, events) is SendRequest,
        0 <= n <= events.len(),
    ensures
        !(called_for(path, url, events.take(n)) is CreateFile),
    decreases events.len(),
{
    if n == events.len() {
        assert(events.take(n) =~= events);
    } else {
        let before = events.drop_last();
        assert(events.take(n) =~= before.take(n));
        lemma_no_file_before_the_response(path, url, before, n);
    }
}

/// A response with a status from 200 up to 299 is taken: the file is created next.
pub proof fn law_accepted_status_creates_the_file(
    path: Seq<char>,
    url: Seq<char>,
    events: Seq<EventView>,
    status: u16,
    checksum: Option<Seq<u8>>,
)
    requires
        can_happen(path, url, events),
        events.len() > 0,
        events.last() == (EventView::ResponseReceived { status, checksum }),
        200 <= status < 300,
    ensures
        called_for(path, url, events) is CreateFile,
{
}

/// A download that succeeds without a cache hit had a response, and every response
/// that it had has a status from 200 up to 299.
pub proof fn law_success_needs_an_accepted_status(
    path: Seq<char>,
    url: Seq<char>,
    events: Seq<EventView>,
)
    requires
        can_happen(path, url, events),
        called_for(path, url, events) == ActionView::Finish(Ok(())),
        events[0] != (EventView::CacheChecked { exists: true }),
    ensures
        exists|i: int| 0 <= i < events.len() && (#[trigger] events[i] is ResponseReceived),
        forall|i: int|
            0 <= i < events.len() ==> (#[trigger] events[i] matches EventView::ResponseReceived {
                status,
                checksum,
            } ==> 200 <= status <= 299),
{
    law_success_means_cached_or_checked(path, url, events);
    let before = events.drop_last();
    let expected = choose|expected: Option<Seq<char>>| #[trigger] announced(events, expected);
    let i = choose|i: int|
        0 <= i < events.len() && (#[trigger] events[i] matches EventView::ResponseReceived {
            status,
            checksum,
        } && is_success(status) && checksum_of(checksum) == expected);
    assert(events[i] is ResponseReceived);
    assert forall|j: int| 0 <= j < events.len() implies (
    #[trigger] events[j] matches EventView::ResponseReceived { status, checksum } ==> 200 <= status
        <= 299) by {
        if events[j] is ResponseReceived {
            assert(j < before.len());
            assert(before[j] == events[j]);
            lemma_response_is_held(path, url, before, j);
        }
    }
}

/// A download that goes on after a response holds the checksum that this response
/// announced, and its status is a success.
proof fn lemma_response_is_held(path: Seq<char>, url: Seq<char>, events: Seq<EventView>, i: int)
    requires
        can_happen(path, url, events),
        0 <= i < events.len(),
        events[i] is ResponseReceived,
        !(reached(path, url, events) is Finished),
    ensures
        200 <= events[i]->status <= 299,
        match reached(path, url, events) {
            StateView::CreateFile { expected } => expected == checksum_of(events[i]->checksum),
            StateView::Read { expected, .. } => expected == checksum_of(events[i]->checksum),
            StateView::Write { expected, .. } => expected == checksum_of(events[i]->checksum),
            _ => false,
        },
    decreases events.len(),
{
    let before = events.drop_last();
    assert(answers(reached(path, url, before), events.last()));
    if i < before.len() {
        assert(before[i] == events[i]);
        lemma_response_is_held(path, url, before, i);
    } else {
        assert(events[i] == events.last());
    }
}

/// When the body is complete the download ends: with success where the response
/// announced no checksum, or where the SHA-256 digest of everything that arrived
/// prints as the announced one, and with a mismatch otherwise.
pub proof fn law_checksum_decides_at_the_end(
    path: Seq<char>,
    url: Seq<char>,
    events: Seq<EventView>,
    i: int,
)
    requires
        can_happen(path, url, events),
        events.len() > 0,
        events.last() is StreamEnded,
        0 <= i < events.len(),
        events[i] is ResponseReceived,
    ensures
        checksum_of(events[i]->checksum) is None ==> called_for(path, url, events)
            == ActionView::Finish(Ok(())),
        checksum_of(events[i]->checksum) == Some(hex(sha256(arrived(events)))) ==> called_for(
            path,
            url,
            events,
        ) == ActionView::Finish(Ok(())),
        checksum_of(events[i]->checksum) is Some && checksum_of(events[i]->checksum)->0 != hex(
            sha256(arrived(events)),
        ) ==> called_for(path, url, events) == ActionView::Finish(
            Err(
                ErrorView::ChecksumMismatch {
                    path,
                    expected: checksum_of(events[i]->checksum)->0,
                    actual: hex(sha256(arrived(events))),
                },
            ),
        ),
{
    let before = events.drop_last();
    assert(before[i] == events[i]);
    lemma_response_is_held(path, url, before, i);
    law_state_follows_file_and_response(path, url, before);
    law_file_holds_the_body(path, url, before);
}

/// Each event but a response and the end of the body calls for one action, whatever
/// came before it: the cache is looked up, the directory made, the request sent, and
/// then each piece that arrives is written before the next one is read; every failure
/// ends the download with its own error.
pub proof fn law_every_event_calls_for_its_action(
    path: Seq<char>,
    url: Seq<char>,
    events: Seq<EventView>,
)
    requires
        can_happen(path, url, events),
        events.len() > 0,
    ensures
        called_for(path, url, Seq::empty()) is CheckCache,
        events.last() == (EventView::CacheChecked { exists: true }) ==> called_for(path, url, events)
            == ActionView::Finish(Ok(())),
        events.last() == (EventView::CacheChecked { exists: false }) ==> called_for(
            path,
            url,
            events,
        ) is CreateDir,
        events.last() is DirReady ==> called_for(path, url, events) is SendRequest,
        events.last() matches EventView::RequestFailed(e) ==> called_for(path, url, events)
            == ActionView::Finish(
            Err(ErrorView::InvalidArg("download failed for "@ + url + ": "@ + e)),
        ),
        events.last() is FileCreated ==> called_for(path, url, events) is ReadChunk,
        events.last() matches EventView::ChunkReceived(c) ==> called_for(path, url, events)
            == ActionView::WriteChunk(c),
        events.last() is ChunkWritten ==> called_for(path, url, events) is ReadChunk,
        events.last() matches EventView::StreamFailed(e) ==> called_for(path, url, events)
            == ActionView::Finish(
            Err(ErrorView::InvalidArg("stream error for "@ + url + ": "@ + e)),
        ),
        events.last() matches EventView::IoFailed(e) ==> called_for(path, url, events)
            == ActionView::Finish(Err(ErrorView::Io(e))),
{
}

/// Whatever an action can come to is taken in: every status of three digits and every
/// header, every piece that keeps the body below the limit, every failure. When the
/// download has ended nothing more is.
pub proof fn law_every_answer_is_taken(
    path: Seq<char>,
    url: Seq<char>,
    events: Seq<EventView>,
    next: EventView,
)
    requires
        can_happen(path, url, events),
    ensures
        can_happen(path, url, events.push(next)) <==> match called_for(path, url, events) {
            ActionView::CheckCache => next is CacheChecked,
            ActionView::CreateDir => next is DirReady || next is IoFailed,
            ActionView::SendRequest => next is RequestFailed || next is ResponseReceived && 100
                <= next->status <= 999,
            ActionView::CreateFile => next is FileCreated || next is IoFailed,
            ActionView::ReadChunk => next is StreamFailed || next is StreamEnded
                || next is ChunkReceived && arrived(events).len() + next->ChunkReceived_0.len()
                < 0x2000_0000_0000_0000,
            ActionView::WriteChunk(_) => next is ChunkWritten || next is IoFailed,
            ActionView::Finish(_) => false,
        },
{
    assert(events.push(next).drop_last() =~= events);
    assert(events.push(next).last() == next);
    law_state_follows_file_and_response(path, url, events);
    law_file_holds_the_body(path, url, events);
    if events.len() > 0 {
        assert(answers(reached(path, url, events.drop_last()), events.last()));
    }
}

/// A header announces a checksum if and only if it is there and holds visible ASCII,
/// spaces and tabs alone; the checksum has the characters of the header, the letters
/// from `A` to `Z` in lower case.
pub proof fn law_checksum_is_the_header_in_lower_case(value: Seq<u8>)
    ensures
        checksum_of(None) is None,
        checksum_of(Some(value)) is Some <==> forall|i: int|
            0 <= i < value.len() ==> (32 <= #[trigger] value[i] <= 126 || value[i] == 9),
        checksum_of(Some(value)) matches Some(text) ==> text.len() == value.len() && forall|i: int|
            0 <= i < value.len() ==> #[trigger] text[i] as int == if 'A' as int <= value[i] as int
                <= 'Z' as int {
                value[i] + 32
            } else {
                value[i] as int
            },
{
    if forall|i: int| 0 <= i < value.len() ==> is_header_text(#[trigger] value[i]) {
        assert forall|i: int| 0 <= i < value.len() implies (32 <= #[trigger] value[i] <= 126
            || value[i] == 9) by {
            assert(is_header_text(value[i]));
        }
    } else {
        let i = choose|i: int| 0 <= i < value.len() && !is_header_text(#[trigger] value[i]);
        assert(!(32 <= value[i] <= 126 || value[i] == 9));
    }
}

/// A digest is accepted if and only if no checksum is announced or its hexadecimal
/// text is the announced one; a mismatch names the path and both texts.
pub proof fn law_digest_must_be_the_announced_one(
    path: Seq<char>,
    expected: Seq<char>,
    digest: Seq<u8>,
)
    ensures
        compared(path, None, digest) is Ok,
        compared(path, Some(expected), digest) is Ok <==> expected == hex(digest),
        expected != hex(digest) ==> compared(path, Some(expected), digest) == Err::<(), ErrorView>(
            ErrorView::ChecksumMismatch { path, expected, actual: hex(digest) },
        ),
{
}

/// What is seen of an event is its kind and all that it holds.
pub proof fn law_events_are_seen_as_they_are(event: DownloadEvent)
    ensures
        event matches DownloadEvent::CacheChecked { exists } ==> event@
            == (EventView::CacheChecked { exists }),
        event is DirReady ==> event@ is DirReady,
        event matches DownloadEvent::RequestFailed(e) ==> event@ == EventView::RequestFailed(e@),
        event matches DownloadEvent::ResponseReceived { status, checksum } ==> event@
            == (EventView::ResponseReceived { status, checksum: event@->checksum })
            && event@->checksum is Some == checksum is Some,
        event matches DownloadEvent::ResponseReceived { status, checksum: Some(value) } ==> event@
            == (EventView::ResponseReceived { status, checksum: Some(value@) }),
        event is FileCreated ==> event@ is FileCreated,
        event matches DownloadEvent::ChunkReceived(c) ==> event@ == EventView::ChunkReceived(c@),
        event matches DownloadEvent::StreamFailed(e) ==> event@ == EventView::StreamFailed(e@),
        event is ChunkWritten ==> event@ is ChunkWritten,
        event is StreamEnded ==> event@ is StreamEnded,
        event matches DownloadEvent::IoFailed(e) ==> event@ == EventView::IoFailed(e@),
{
}

/// What is seen of an action is its kind and all that it holds.
pub proof fn law_actions_are_seen_as_they_are(action: DownloadAction)
    ensures
        action is CheckCache <==> action@ is CheckCache,
        action is CreateDir <==> action@ is CreateDir,
        action is SendRequest <==> action@ is SendRequest,
        action is CreateFile <==> action@ is CreateFile,
        action is ReadChunk <==> action@ is ReadChunk,
        action is WriteChunk <==> action@ is WriteChunk,
        action matches DownloadAction::WriteChunk(c) ==> action@ == ActionView::WriteChunk(c@),
        action is Finish <==> action@ is Finish,
        action matches DownloadAction::Finish(Ok(())) ==> action@ == ActionView::Finish(Ok(())),
        action matches DownloadAction::Finish(Err(e)) ==> action@ == ActionView::Finish(Err(e@)),
{
}

/// What is seen of a state is its kind, the checksum that it holds and the content so
/// far.
pub proof fn law_states_are_seen_as_they_are(state: DownloadState)
    ensures
        state is CheckCache <==> state@ is CheckCache,
        state is CreateDir <==> state@ is CreateDir,
        state is SendRequest <==> state@ is SendRequest,
        state is Finished <==> state@ is Finished,
        state matches DownloadState::CreateFile { expected } ==> state@ == (StateView::CreateFile {
            expected: text_of(expected),
        }),
        state matches DownloadState::Read { expected, content } ==> state@ == (StateView::Read {
            expected: text_of(expected),
            body: content@,
        }),
        state matches DownloadState::Write { expected, content } ==> state@ == (StateView::Write {
            expected: text_of(expected),
            body: content@,
        }),
{
}

/// A download starts with a look into the cache and with nothing written.
pub proof fn law_a_download_starts_with_the_cache(path: Seq<char>, url: Seq<char>)
    ensures
        can_happen(path, url, Seq::empty()),
        called_for(path, url, Seq::empty()) is CheckCache,
        reached(path, url, Seq::empty()) is CheckCache,
        written(path, url, Seq::empty()).len() == 0,
{
}

/// One step at a response: with a status from 200 up to 299 the file is created and
/// the announced checksum kept; with any other the download is over with an error.
pub proof fn law_step_at_a_response(
    path: Seq<char>,
    url: Seq<char>,
    status: u16,
    checksum: Option<Seq<u8>>,
)
    ensures
        answers(StateView::SendRequest, EventView::ResponseReceived { status, checksum }) <==> 100
            <= status <= 999,
        200 <= status <= 299 ==> following(
            path,
            url,
            StateView::SendRequest,
            EventView::ResponseReceived { status, checksum },
        ) == (
            StateView::CreateFile { expected: checksum_of(checksum) },
            ActionView::CreateFile,
        ),
        status < 200 || status >= 300 ==> following(
            path,
            url,
            StateView::SendRequest,
            EventView::ResponseReceived { status, checksum },
        ) == (
            StateView::Finished,
            ActionView::Finish(
                Err(ErrorView::InvalidArg("download "@ + url + ": HTTP "@ + status_text(status))),
            ),
        ),
{
}

/// Steps before the response: a cached file ends the download with success, else the
/// directory is made and the request sent; a request that fails ends the download.
pub proof fn law_steps_before_the_response(path: Seq<char>, url: Seq<char>, reason: Seq<char>)
    ensures
        answers(StateView::CheckCache, EventView::CacheChecked { exists: true }),
        answers(StateView::CheckCache, EventView::CacheChecked { exists: false }),
        answers(StateView::CreateDir, EventView::DirReady),
        answers(StateView::SendRequest, EventView::RequestFailed(reason)),
        following(path, url, StateView::CheckCache, EventView::CacheChecked { exists: true }) == (
            StateView::Finished,
            ActionView::Finish(Ok(())),
        ),
        following(path, url, StateView::CheckCache, EventView::CacheChecked { exists: false }) == (
            StateView::CreateDir,
            ActionView::CreateDir,
        ),
        following(path, url, StateView::CreateDir, EventView::DirReady) == (
            StateView::SendRequest,
            ActionView::SendRequest,
        ),
        following(path, url, StateView::SendRequest, EventView::RequestFailed(reason)) == (
            StateView::Finished,
            ActionView::Finish(
                Err(ErrorView::InvalidArg("download failed for "@ + url + ": "@ + reason)),
            ),
        ),
{
}

/// Steps through the body: the file starts empty, every piece that arrives is written
/// as it is and joins the content behind the pieces before it, whatever is announced;
/// a broken stream ends the download.
pub proof fn law_steps_through_the_body(
    path: Seq<char>,
    url: Seq<char>,
    expected: Option<Seq<char>>,
    body: Seq<u8>,
    piece: Seq<u8>,
    reason: Seq<char>,
)
    ensures
        answers(StateView::CreateFile { expected }, EventView::FileCreated),
        answers(StateView::Read { expected, body }, EventView::ChunkReceived(piece)) <==> body.len()
            + piece.len() < 0x2000_0000_0000_0000,
        answers(StateView::Read { expected, body }, EventView::StreamFailed(reason)),
        answers(StateView::Write { expected, body }, EventView::ChunkWritten),
        following(path, url, StateView::CreateFile { expected }, EventView::FileCreated) == (
            StateView::Read { expected, body: Seq::empty() },
            ActionView::ReadChunk,
        ),
        following(path, url, StateView::Read { expected, body }, EventView::ChunkReceived(piece))
            == (StateView::Write { expected, body: body + piece }, ActionView::WriteChunk(piece)),
        following(path, url, StateView::Write { expected, body }, EventView::ChunkWritten) == (
            StateView::Read { expected, body },
            ActionView::ReadChunk,
        ),
        following(path, url, StateView::Read { expected, body }, EventView::StreamFailed(reason))
            == (
            StateView::Finished,
            ActionView::Finish(
                Err(ErrorView::InvalidArg("stream error for "@ + url + ": "@ + reason)),
            ),
        ),
{
}

/// The step at the end of the body: success where no checksum is expected or where it
/// is the digest of the content in hexadecimal, and a mismatch otherwise.
pub proof fn law_step_at_the_end_of_the_body(
    path: Seq<char>,
    url: Seq<char>,
    expected: Seq<char>,
    body: Seq<u8>,
)
    ensures
        answers(StateView::Read { expected: None, body }, EventView::StreamEnded),
        answers(StateView::Read { expected: Some(expected), body }, EventView::StreamEnded),
        following(path, url, StateView::Read { expected: None, body }, EventView::StreamEnded) == (
            StateView::Finished,
            ActionView::Finish(Ok(())),
        ),
        expected == hex(sha256(body)) ==> following(
            path,
            url,
            StateView::Read { expected: Some(expected), body },
            EventView::StreamEnded,
        ) == (StateView::Finished, ActionView::Finish(Ok(()))),
        expected != hex(sha256(body)) ==> following(
            path,
            url,
            StateView::Read { expected: Some(expected), body },
            EventView::StreamEnded,
        ) == (
            StateView::Finished,
            ActionView::Finish(
                Err(
                    ErrorView::ChecksumMismatch { path, expected, actual: hex(sha256(body)) },
                ),
            ),
        ),
{
}

/// A file operation that fails ends the download with its error, wherever one is
/// under way.
pub proof fn law_step_at_a_failed_file_operation(
    path: Seq<char>,
    url: Seq<char>,
    state: StateView,
    reason: Seq<char>,
)
    ensures
        answers(state, EventView::IoFailed(reason)) <==> state is CreateDir || state is CreateFile
            || state is Write,
        answers(state, EventView::IoFailed(reason)) ==> following(
            path,
            url,
            state,
            EventView::IoFailed(reason),
        ) == (StateView::Finished, ActionView::Finish(Err(ErrorView::Io(reason)))),
{
}

} // verus!
