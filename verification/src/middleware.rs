//! The decisions of the local HTTP cache that sits in front of the shop and
//! Untappd clients: which file a request is looked up in, when the upstream
//! server is asked, and which answers are kept.

use crate::cache::{cache_key_to_path, cache_ns_dir, spec_cache_path, spec_ns_dir};
use crate::config::Config;
use crate::header::{header_value_to_str, is_success, spec_header_text, spec_is_success};
use vstd::prelude::*;

verus! {

/// A cache of HTTP responses kept in files under one namespace.
pub struct LocalCacheMiddleware {
    namespace: String,
}

impl View for LocalCacheMiddleware {
    type V = Seq<char>;

    closed spec fn view(&self) -> Seq<char> {
        self.namespace@
    }
}

/// Why a request could not go through the cache.
#[derive(Debug, Clone, Copy, PartialEq, Eq, Structural)]
pub enum MiddlewareError {
    /// The request carries no `local-cache-key` header.
    NoCacheKey,
    /// The `local-cache-key` header is not visible ASCII.
    NonUtf8CacheKey,
    /// An event came that the request's stage does not expect.
    OutOfOrder,
}

/// How far the handling of one request has come.
#[derive(Debug)]
pub enum HandleState {
    /// The request has not been looked at yet.
    Start,
    /// The cache file for `cache_key` is being read.
    LookingUp { cache_key: String },
    /// The request went to the upstream server.
    Forwarded { cache_key: String },
    /// Nothing more is to be done.
    Finished,
}

/// What happened outside.
#[derive(Debug)]
pub enum HandleEvent {
    /// A request came in, with the value of its `local-cache-key` header.
    Received { cache_key_header: Option<Vec<u8>> },
    /// The cache file was read (`None` when it could not be).
    CacheRead { contents: Option<String> },
    /// The upstream server answered with `status`.
    UpstreamReplied { status: u16 },
}

/// What to do next.
#[derive(Debug)]
pub enum HandleAction {
    /// Read the cache file at `path`.
    ReadCache { path: String },
    /// Answer with `body`, taken from the cache.
    ReplyFromCache { body: String },
    /// Send the request (without its cache-key header) upstream.
    Forward,
    /// Create `dir`, save the upstream body at `path`, and pass the answer on.
    StoreAndReply { dir: String, path: String },
    /// Pass the upstream answer on without keeping it.
    Reply,
    /// Fail the request.
    Fail { error: MiddlewareError },
}

/// The contents of a `HandleState`.
pub enum HandleStateView {
    Start,
    LookingUp(Seq<char>),
    Forwarded(Seq<char>),
    Finished,
}

/// The contents of a `HandleEvent`.
pub enum HandleEventView {
    Received(Option<Seq<u8>>),
    CacheRead(Option<Seq<char>>),
    UpstreamReplied(u16),
}

/// The contents of a `HandleAction`.
pub enum HandleActionView {
    ReadCache(Seq<char>),
    ReplyFromCache(Seq<char>),
    Forward,
    StoreAndReply(Seq<char>, Seq<char>),
    Reply,
    Fail(MiddlewareError),
}

impl View for HandleState {
    type V = HandleStateView;

    open spec fn view(&self) -> HandleStateView {
        match self {
            HandleState::Start => HandleStateView::Start,
            HandleState::LookingUp { cache_key } => HandleStateView::LookingUp(cache_key@),
            HandleState::Forwarded { cache_key } => HandleStateView::Forwarded(cache_key@),
            HandleState::Finished => HandleStateView::Finished,
        }
    }
}

impl View for HandleEvent {
    type V = HandleEventView;

    open spec fn view(&self) -> HandleEventView {
        match self {
            HandleEvent::Received { cache_key_header } => HandleEventView::Received(
                cache_key_header.deep_view(),
            ),
            HandleEvent::CacheRead { contents } => HandleEventView::CacheRead(contents.deep_view()),
            HandleEvent::UpstreamReplied { status } => HandleEventView::UpstreamReplied(*status),
        }
    }
}

impl View for HandleAction {
    type V = HandleActionView;

    open spec fn view(&self) -> HandleActionView {
        match self {
            HandleAction::ReadCache { path } => HandleActionView::ReadCache(path@),
            HandleAction::ReplyFromCache { body } => HandleActionView::ReplyFromCache(body@),
            HandleAction::Forward => HandleActionView::Forward,
            HandleAction::StoreAndReply { dir, path } => HandleActionView::StoreAndReply(
                dir@,
                path@,
            ),
            HandleAction::Reply => HandleActionView::Reply,
            HandleAction::Fail { error } => HandleActionView::Fail(*error),
        }
    }
}

/// One step of handling a request through the cache of namespace `ns` under
/// the cache directory `dir`.
pub open spec fn spec_step(
    ns: Seq<char>,
    dir: Seq<char>,
    state: HandleStateView,
    event: HandleEventView,
) -> (HandleStateView, HandleActionView) {
    match (state, event) {
        (HandleStateView::Start, HandleEventView::Received(header)) => match header {
            None => (HandleStateView::Finished, HandleActionView::Fail(MiddlewareError::NoCacheKey)),
            Some(bytes) => match spec_header_text(bytes) {
                None => (
                    HandleStateView::Finished,
                    HandleActionView::Fail(MiddlewareError::NonUtf8CacheKey),
                ),
                Some(key) => (
                    HandleStateView::LookingUp(key),
                    HandleActionView::ReadCache(spec_cache_path(dir, ns, key)),
                ),
            },
        },
        (HandleStateView::LookingUp(key), HandleEventView::CacheRead(contents)) => match contents {
            Some(body) => (HandleStateView::Finished, HandleActionView::ReplyFromCache(body)),
            None => (HandleStateView::Forwarded(key), HandleActionView::Forward),
        },
        (HandleStateView::Forwarded(key), HandleEventView::UpstreamReplied(status)) => {
            if spec_is_success(status) {
                (
                    HandleStateView::Finished,
                    HandleActionView::StoreAndReply(
                        spec_ns_dir(dir, ns),
                        spec_cache_path(dir, ns, key),
                    ),
                )
            } else {
                (HandleStateView::Finished, HandleActionView::Reply)
            }
        },
        _ => (HandleStateView::Finished, HandleActionView::Fail(MiddlewareError::OutOfOrder)),
    }
}

impl LocalCacheMiddleware {
    /// A cache for namespace `namespace`.
    pub fn new(namespace: &str) -> (res: LocalCacheMiddleware)
        ensures
            res@ == namespace@,
    {
        LocalCacheMiddleware { namespace: String::from_str(namespace) }
    }

    /// Decides what to do after `event` in `state`.
    pub fn step(&self, config: &Config, state: HandleState, event: HandleEvent) -> (res: (
        HandleState,
        HandleAction,
    ))
        ensures
            (res.0@, res.1@) == spec_step(self@, config.cache_dir@, state@, event@),
    {
        let ghost ev = event@;
        match (state, event) {
            (HandleState::Start, HandleEvent::Received { cache_key_header }) => {
                let bytes = match cache_key_header {
                    None => {
                        return (
                            HandleState::Finished,
                            HandleAction::Fail { error: MiddlewareError::NoCacheKey },
                        )
                    },
                    Some(b) => b,
                };
                assert(bytes.deep_view() =~= bytes@);
                assert(ev == HandleEventView::Received(Some(bytes@)));
                match header_value_to_str(bytes.as_slice()) {
                    None => (
                        HandleState::Finished,
                        HandleAction::Fail { error: MiddlewareError::NonUtf8CacheKey },
                    ),
                    Some(key) => {
                        let path = cache_key_to_path(config, self.namespace.as_str(), key.as_str());
                        (HandleState::LookingUp { cache_key: key }, HandleAction::ReadCache { path })
                    },
                }
            },
            (HandleState::LookingUp { cache_key }, HandleEvent::CacheRead { contents }) => {
                match contents {
                    Some(body) => (HandleState::Finished, HandleAction::ReplyFromCache { body }),
                    None => (HandleState::Forwarded { cache_key }, HandleAction::Forward),
                }
            },
            (HandleState::Forwarded { cache_key }, HandleEvent::UpstreamReplied { status }) => {
                if is_success(status) {
                    let dir = cache_ns_dir(config, self.namespace.as_str());
                    let path = cache_key_to_path(
                        config,
                        self.namespace.as_str(),
                        cache_key.as_str(),
                    );
                    (HandleState::Finished, HandleAction::StoreAndReply { dir, path })
                } else {
                    (HandleState::Finished, HandleAction::Reply)
                }
            },
            _ => (HandleState::Finished, HandleAction::Fail { error: MiddlewareError::OutOfOrder }),
        }
    }
}

/// The life of one request: a request without a usable key fails at once;
/// one with key `k` is looked up in the file of `k`; a cached answer is
/// served without asking upstream; otherwise the request is forwarded, and a
/// successful answer is saved in the very file that was read, while any
/// other answer is passed on without being saved.
pub proof fn lemma_request_life(
    ns: Seq<char>,
    dir: Seq<char>,
    header: Option<Seq<u8>>,
    cached: Option<Seq<char>>,
    status: u16,
)
    ensures
        ({
            let (s1, a1) = spec_step(ns, dir, HandleStateView::Start, HandleEventView::Received(header));
            match header {
                None => a1 == HandleActionView::Fail(MiddlewareError::NoCacheKey),
                Some(bytes) => match spec_header_text(bytes) {
                    None => a1 == HandleActionView::Fail(MiddlewareError::NonUtf8CacheKey),
                    Some(key) => {
                        let path = spec_cache_path(dir, ns, key);
                        let (s2, a2) = spec_step(ns, dir, s1, HandleEventView::CacheRead(cached));
                        let (s3, a3) = spec_step(ns, dir, s2, HandleEventView::UpstreamReplied(status));
                        &&& a1 == HandleActionView::ReadCache(path)
                        &&& match cached {
                            Some(body) => a2 == HandleActionView::ReplyFromCache(body)
                                && s2 == HandleStateView::Finished,
                            None => {
                                &&& a2 == HandleActionView::Forward
                                &&& spec_is_success(status) ==> a3
                                    == HandleActionView::StoreAndReply(spec_ns_dir(dir, ns), path)
                                &&& !spec_is_success(status) ==> a3 == HandleActionView::Reply
                                &&& s3 == HandleStateView::Finished
                            },
                        }
                    },
                },
            }
        }),
{
}

} // verus!
