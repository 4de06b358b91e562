//! The widgets registry index and the decisions of fetching it.
//!
//! A fetch sends a request for the index, conditional on the etag of the
//! cached copy when there is one. A fresh index (status 200) is accepted and
//! cached; "not modified" (status 304) makes the cached copy be used, and when
//! that copy cannot be read, the index is requested once more without
//! condition. Any other status fails the fetch.

use vstd::prelude::*;

use crate::catalog::WidgetManifestAuthor;
use crate::settings::opt_seq;
use crate::text::{trim_of, trim_white_space};

verus! {

/// The URL of the widgets registry index.
pub const INDEX_URL: &'static str = "https://cdn.jsdelivr.net/gh/deskulpt-apps/widgets@registry/index.json";

/// File name of the cached index in the cache directory.
pub const INDEX_CACHE_FILE: &'static str = "widgets-registry-index.json";

/// File name of the cached etag in the cache directory.
pub const INDEX_ETAG_FILE: &'static str = "widgets-registry-index.etag";

/// HTTP status: OK.
pub const STATUS_OK: u16 = 200;

/// HTTP status: not modified.
pub const STATUS_NOT_MODIFIED: u16 = 304;

/// A release of a registry widget.
#[derive(Debug)]
pub struct RegistryEntryRelease {
    pub version: String,
    pub published_at: String,
    pub digest: String,
}

/// A widget listed in the registry.
#[derive(Debug)]
pub struct RegistryEntry {
    pub handle: String,
    pub id: String,
    pub name: String,
    pub authors: Vec<WidgetManifestAuthor>,
    pub description: String,
    pub releases: Vec<RegistryEntryRelease>,
}

/// The widgets registry index.
#[derive(Debug)]
pub struct RegistryIndex {
    pub api: i32,
    pub generated_at: String,
    pub widgets: Vec<RegistryEntry>,
}

/// Where a fetch of the registry index stands.
#[derive(Clone, Copy, Debug, PartialEq, Eq, Structural)]
pub enum IndexFetchState {
    /// Not started.
    Idle,
    /// The first request was sent.
    AwaitingResponse,
    /// The server answered "not modified"; the cached index is being read.
    ReadingCache,
    /// The cached index could not be read; the unconditional request was sent.
    AwaitingRetry,
    /// The fetch is over.
    Finished,
}

/// What happened during a fetch.
#[derive(Debug)]
pub enum IndexFetchEvent {
    /// The fetch starts, with the contents of the cached etag file when it
    /// could be read.
    Start { etag_file: Option<String> },
    /// A response arrived, with its status code and its etag header.
    Response { status: u16, etag: Option<String> },
    /// Reading the cached index succeeded or failed.
    CacheRead { ok: bool },
}

/// What to do next in a fetch.
#[derive(Debug)]
pub enum IndexFetchAction {
    /// Request the index, with `If-None-Match` set to the given etag.
    Send { if_none_match: Option<String> },
    /// Take the response body as the index, cache it, and cache the etag when
    /// there is one.
    Accept { etag: Option<String> },
    /// Read the cached index.
    ReadCache,
    /// Use the cached index that was read.
    UseCache,
    /// Fail with the response's unexpected status code.
    Fail { status: u16 },
    /// The event does not belong to the current state; nothing to do.
    Ignore,
}

/// The mathematical content of an [`IndexFetchEvent`].
pub enum IndexFetchEventView {
    Start { etag_file: Option<Seq<char>> },
    Response { status: u16, etag: Option<Seq<char>> },
    CacheRead { ok: bool },
}

/// The mathematical content of an [`IndexFetchAction`].
pub enum IndexFetchActionView {
    Send { if_none_match: Option<Seq<char>> },
    Accept { etag: Option<Seq<char>> },
    ReadCache,
    UseCache,
    Fail { status: u16 },
    Ignore,
}

impl View for IndexFetchEvent {
    type V = IndexFetchEventView;

    open spec fn view(&self) -> IndexFetchEventView {
        match self {
            IndexFetchEvent::Start { etag_file } => IndexFetchEventView::Start { etag_file: opt_seq(*etag_file) },
            IndexFetchEvent::Response { status, etag } => IndexFetchEventView::Response {
                status: *status,
                etag: opt_seq(*etag),
            },
            IndexFetchEvent::CacheRead { ok } => IndexFetchEventView::CacheRead { ok: *ok },
        }
    }
}

impl View for IndexFetchAction {
    type V = IndexFetchActionView;

    open spec fn view(&self) -> IndexFetchActionView {
        match self {
            IndexFetchAction::Send { if_none_match } => IndexFetchActionView::Send {
                if_none_match: opt_seq(*if_none_match),
            },
            IndexFetchAction::Accept { etag } => IndexFetchActionView::Accept { etag: opt_seq(*etag) },
            IndexFetchAction::ReadCache => IndexFetchActionView::ReadCache,
            IndexFetchAction::UseCache => IndexFetchActionView::UseCache,
            IndexFetchAction::Fail { status } => IndexFetchActionView::Fail { status: *status },
            IndexFetchAction::Ignore => IndexFetchActionView::Ignore,
        }
    }
}

/// The etag to send, from the contents of the cached etag file.
pub open spec fn cached_etag(etag_file: Option<Seq<char>>) -> Option<Seq<char>> {
    match etag_file {
        Some(t) => Some(trim_of(t)),
        None => None,
    }
}

/// One step of a fetch: the next state and the action, given an event.
pub open spec fn fetch_step(s: IndexFetchState, e: IndexFetchEventView) -> (IndexFetchState, IndexFetchActionView) {
    match (s, e) {
        (IndexFetchState::Idle, IndexFetchEventView::Start { etag_file }) => (
            IndexFetchState::AwaitingResponse,
            IndexFetchActionView::Send { if_none_match: cached_etag(etag_file) },
        ),
        (IndexFetchState::AwaitingResponse, IndexFetchEventView::Response { status, etag }) => {
            if status == STATUS_OK {
                (IndexFetchState::Finished, IndexFetchActionView::Accept { etag })
            } else if status == STATUS_NOT_MODIFIED {
                (IndexFetchState::ReadingCache, IndexFetchActionView::ReadCache)
            } else {
                (IndexFetchState::Finished, IndexFetchActionView::Fail { status })
            }
        },
        (IndexFetchState::ReadingCache, IndexFetchEventView::CacheRead { ok }) => {
            if ok {
                (IndexFetchState::Finished, IndexFetchActionView::UseCache)
            } else {
                (IndexFetchState::AwaitingRetry, IndexFetchActionView::Send { if_none_match: None })
            }
        },
        (IndexFetchState::AwaitingRetry, IndexFetchEventView::Response { status, etag }) => {
            if status == STATUS_OK {
                (IndexFetchState::Finished, IndexFetchActionView::Accept { etag })
            } else {
                (IndexFetchState::Finished, IndexFetchActionView::Fail { status })
            }
        },
        _ => (s, IndexFetchActionView::Ignore),
    }
}

/// The decisions of one fetch of the registry index.
#[derive(Debug)]
pub struct IndexFetcher {
    pub state: IndexFetchState,
}

impl IndexFetcher {
    /// A fetch that has not started.
    pub fn new() -> (f: Self)
        ensures
            f.state == IndexFetchState::Idle,
    {
        IndexFetcher { state: IndexFetchState::Idle }
    }

    /// Whether the fetch is over.
    pub fn is_finished(&self) -> (b: bool)
        ensures
            b == (self.state == IndexFetchState::Finished),
    {
        match self.state {
            IndexFetchState::Finished => true,
            _ => false,
        }
    }

    /// Take an event and say what to do next.
    pub fn step(&mut self, event: IndexFetchEvent) -> (a: IndexFetchAction)
        ensures
            (final(self).state, a@) == fetch_step(old(self).state, event@),
    {
        match (self.state, event) {
            (IndexFetchState::Idle, IndexFetchEvent::Start { etag_file }) => {
                self.state = IndexFetchState::AwaitingResponse;
                let if_none_match = match etag_file {
                    Some(t) => Some(trim_white_space(t.as_str())),
                    None => None,
                };
                IndexFetchAction::Send { if_none_match }
            },
            (IndexFetchState::AwaitingResponse, IndexFetchEvent::Response { status, etag }) => {
                if status == STATUS_OK {
                    self.state = IndexFetchState::Finished;
                    IndexFetchAction::Accept { etag }
                } else if status == STATUS_NOT_MODIFIED {
                    self.state = IndexFetchState::ReadingCache;
                    IndexFetchAction::ReadCache
                } else {
                    self.state = IndexFetchState::Finished;
                    IndexFetchAction::Fail { status }
                }
            },
            (IndexFetchState::ReadingCache, IndexFetchEvent::CacheRead { ok }) => {
                if ok {
                    self.state = IndexFetchState::Finished;
                    IndexFetchAction::UseCache
                } else {
                    self.state = IndexFetchState::AwaitingRetry;
                    IndexFetchAction::Send { if_none_match: None }
                }
            },
            (IndexFetchState::AwaitingRetry, IndexFetchEvent::Response { status, etag }) => {
                self.state = IndexFetchState::Finished;
                if status == STATUS_OK {
                    IndexFetchAction::Accept { etag }
                } else {
                    IndexFetchAction::Fail { status }
                }
            },
            _ => IndexFetchAction::Ignore,
        }
    }
}

/// How many more requests a fetch may still send from a state.
pub open spec fn request_budget(s: IndexFetchState) -> nat {
    match s {
        IndexFetchState::Idle => 2,
        IndexFetchState::AwaitingResponse => 1,
        IndexFetchState::ReadingCache => 1,
        IndexFetchState::AwaitingRetry => 0,
        IndexFetchState::Finished => 0,
    }
}

/// The action sends a request.
pub open spec fn sends(a: IndexFetchActionView) -> bool {
    a is Send
}

/// Run a fetch through a sequence of events: the final state and the number
/// of requests sent.
pub open spec fn fetch_run(s: IndexFetchState, es: Seq<IndexFetchEventView>) -> (IndexFetchState, nat)
    decreases es.len(),
{
    if es.len() == 0 {
        (s, 0)
    } else {
        let (s1, a) = fetch_step(s, es[0]);
        let (s2, n) = fetch_run(s1, es.drop_first());
        (s2, n + if sends(a) {
            1nat
        } else {
            0nat
        })
    }
}

/// Each step spends at most what the budget allows: a request is only sent
/// from a state with budget left, and the budget never grows.
pub proof fn lemma_step_budget(s: IndexFetchState, e: IndexFetchEventView)
    ensures
        request_budget(fetch_step(s, e).0) + (if sends(fetch_step(s, e).1) {
            1int
        } else {
            0int
        }) <= request_budget(s),
{
}

/// Whatever happens, a fetch sends no more requests than its budget; from the
/// start, at most two.
pub proof fn lemma_fetch_requests_bounded(s: IndexFetchState, es: Seq<IndexFetchEventView>)
    ensures
        fetch_run(s, es).1 + request_budget(fetch_run(s, es).0) <= request_budget(s),
        s == IndexFetchState::Idle ==> fetch_run(s, es).1 <= 2,
    decreases es.len(),
{
    if es.len() > 0 {
        lemma_step_budget(s, es[0]);
        lemma_fetch_requests_bounded(fetch_step(s, es[0]).0, es.drop_first());
    }
}

/// Only the first request is conditional: a request carrying an etag is sent
/// only when the fetch starts.
pub proof fn lemma_retry_unconditional(s: IndexFetchState, e: IndexFetchEventView)
    ensures
        fetch_step(s, e).1 matches IndexFetchActionView::Send { if_none_match } && if_none_match is Some
            ==> s == IndexFetchState::Idle,
{
}

/// A response body is taken as the index only when its status is 200, and the
/// etag cached with it is the one of that response.
pub proof fn lemma_accept_only_ok(s: IndexFetchState, e: IndexFetchEventView)
    ensures
        fetch_step(s, e).1 is Accept ==> (e matches IndexFetchEventView::Response { status, etag }
            && status == STATUS_OK && fetch_step(s, e).1 == (IndexFetchActionView::Accept { etag })),
{
}

/// "Not modified" is trusted only on the first response: on the retry it fails
/// the fetch.
pub proof fn lemma_not_modified_on_retry_fails(etag: Option<Seq<char>>)
    ensures
        fetch_step(
            IndexFetchState::AwaitingRetry,
            IndexFetchEventView::Response { status: STATUS_NOT_MODIFIED, etag },
        ) == (IndexFetchState::Finished, IndexFetchActionView::Fail { status: STATUS_NOT_MODIFIED }),
{
}

/// A finished fetch stays finished and does nothing more.
pub proof fn lemma_finished_is_final(e: IndexFetchEventView)
    ensures
        fetch_step(IndexFetchState::Finished, e) == (IndexFetchState::Finished, IndexFetchActionView::Ignore),
{
}

/// What to write to the cache once a fresh index was received.
#[derive(Debug)]
pub struct CacheWrites {
    /// Write the response body as the cached index.
    pub index: bool,
    /// Write this etag as the cached etag.
    pub etag: Option<String>,
}

/// Decide what to cache from a fresh response: its body and its etag, and
/// only when the body is a valid index.
pub fn cache_writes(body_parsed: bool, etag: Option<String>) -> (w: CacheWrites)
    ensures
        w.index == body_parsed,
        w.etag == (if body_parsed {
            etag
        } else {
            None
        }),
{
    if body_parsed {
        CacheWrites { index: true, etag }
    } else {
        CacheWrites { index: false, etag: None }
    }
}

} // verus!
