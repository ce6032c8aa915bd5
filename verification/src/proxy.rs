//! The path of one JSON-RPC request through the proxy: cache key, cache
//! lookup, the request that goes upstream, and what is stored and reported
//! once the upstream has answered. Forwarding itself lies between the two
//! halves and belongs to the host.

use crate::cache::{after_get, after_insert, lookup, Cache, EntryView};
use crate::cache_key::{request_hash, spec_cache_key};
use crate::json::{Json, JsonView};
use crate::log_events::{LogEvent, LogEventView};
use crate::normalize::{canonical, normalize_rpc_request};
use crate::privacy_mode::{spec_should_cache, spec_should_normalize_outbound, PrivacyMode};
use vstd::prelude::*;

verus! {

/// What the proxy reports while it handles a request: calls of the
/// metrics hooks, and events for the log.
#[derive(Debug, PartialEq, Eq)]
pub enum Effect {
    /// A request with this hash was seen.
    RecordRequest(String),
    /// A response was served from the cache.
    RecordCacheHit,
    /// A cacheable request was not in the cache.
    RecordCacheMiss,
    /// An event for the log.
    Log(LogEvent),
}

/// The mathematical value of an [`Effect`]; a logged event stands in it
/// without its time.
pub enum EffectView {
    RecordRequest(Seq<char>),
    RecordCacheHit,
    RecordCacheMiss,
    Log(LogEventView),
}

impl View for Effect {
    type V = EffectView;

    open spec fn view(&self) -> EffectView {
        match self {
            Effect::RecordRequest(hash) => EffectView::RecordRequest(hash@),
            Effect::RecordCacheHit => EffectView::RecordCacheHit,
            Effect::RecordCacheMiss => EffectView::RecordCacheMiss,
            Effect::Log(event) => EffectView::Log(event@.untimed()),
        }
    }
}

/// The views of a sequence of effects.
pub open spec fn effects_view(effects: Seq<Effect>) -> Seq<EffectView> {
    Seq::new(effects.len(), |i: int| effects[i]@)
}

/// A logged event of the request path, without its time.
pub open spec fn logged(
    level: Seq<char>,
    event: Seq<char>,
    request_hash: Option<Seq<char>>,
    method: Seq<char>,
) -> EffectView {
    EffectView::Log(
        LogEventView {
            ts: Seq::empty(),
            level,
            event,
            request_hash,
            method: Some(method),
            latency_ms: None,
            note: None,
        },
    )
}

/// The method that a request names: the string under `method`, or the
/// empty string where there is none.
pub open spec fn spec_method(payload: JsonView) -> Seq<char> {
    match payload.member("method"@) {
        Some(JsonView::String(name)) => name,
        _ => Seq::empty(),
    }
}

/// What goes upstream for a request: its canonical form where the level
/// normalizes outbound requests, the request itself where it does not.
pub open spec fn spec_outbound(mode: PrivacyMode, payload: JsonView) -> JsonView {
    if spec_should_normalize_outbound(mode) {
        canonical(payload)
    } else {
        payload
    }
}

/// What is reported for every request that has a hash.
pub open spec fn seen_effects(hash: Seq<char>, method: Seq<char>) -> Seq<EffectView> {
    seq![EffectView::RecordRequest(hash), logged("INFO"@, "REQ_IN"@, None, method)]
}

/// What is reported for a request that is served from the cache.
pub open spec fn hit_effects(hash: Seq<char>, method: Seq<char>) -> Seq<EffectView> {
    seen_effects(hash, method) + seq![
        EffectView::RecordCacheHit,
        logged("INFO"@, "CACHE_HIT"@, Some(hash), method),
    ]
}

/// What is reported for a request that goes upstream.
pub open spec fn forward_effects(hash: Seq<char>, method: Seq<char>, cacheable: bool) -> Seq<
    EffectView,
> {
    seen_effects(hash, method) + (if cacheable {
        seq![EffectView::RecordCacheMiss, logged("INFO"@, "CACHE_MISS"@, Some(hash), method)]
    } else {
        Seq::empty()
    }) + seq![
        logged("INFO"@, "NORMALIZED"@, Some(hash), method),
        logged("INFO"@, "FORWARDED"@, Some(hash), method),
    ]
}

/// What is reported for a request whose forwarding failed.
pub open spec fn failure_effects(hash: Seq<char>, method: Seq<char>, error: Seq<char>) -> Seq<
    EffectView,
> {
    seq![
        EffectView::Log(
            LogEventView {
                ts: Seq::empty(),
                level: "ERROR"@,
                event: "ERR"@,
                request_hash: Some(hash),
                method: Some(method),
                latency_ms: None,
                note: Some(error),
            },
        ),
    ]
}

/// What is reported for a request that was answered by the upstream.
pub open spec fn completion_effects(hash: Seq<char>, method: Seq<char>, latency_ms: u64) -> Seq<
    EffectView,
> {
    seq![
        EffectView::Log(
            LogEventView {
                ts: Seq::empty(),
                level: "INFO"@,
                event: "RESP_OUT"@,
                request_hash: Some(hash),
                method: Some(method),
                latency_ms: Some(latency_ms),
                note: None,
            },
        ),
    ]
}

/// What the proxy keeps of a request while it is upstream.
#[derive(Debug, PartialEq, Eq)]
pub struct Ticket {
    method: String,
    request_hash: String,
    cacheable: bool,
    started_at: u64,
}

/// The mathematical value of a [`Ticket`].
pub struct TicketView {
    pub method: Seq<char>,
    pub request_hash: Seq<char>,
    pub cacheable: bool,
    pub started_at: u64,
}

impl View for Ticket {
    type V = TicketView;

    closed spec fn view(&self) -> TicketView {
        TicketView {
            method: self.method@,
            request_hash: self.request_hash@,
            cacheable: self.cacheable,
            started_at: self.started_at,
        }
    }
}

impl Ticket {
    /// The method of the request.
    pub fn method(&self) -> (method: &str)
        ensures
            method@ == self@.method,
    {
        self.method.as_str()
    }

    /// The cache key of the request.
    pub fn request_hash(&self) -> (hash: &str)
        ensures
            hash@ == self@.request_hash,
    {
        self.request_hash.as_str()
    }

    /// Whether the response will be cached.
    pub fn cacheable(&self) -> (cacheable: bool)
        ensures
            cacheable == self@.cacheable,
    {
        self.cacheable
    }
}

/// How the first half of the request path ends.
#[derive(Debug, PartialEq, Eq)]
pub enum RpcStep {
    /// The request is answered without the upstream.
    Respond { result: Result<Json, String>, effects: Vec<Effect> },
    /// `outbound` is to be forwarded; `ticket` comes back with the outcome.
    Forward { outbound: Json, ticket: Ticket, effects: Vec<Effect> },
}

/// How the request path ends.
#[derive(Debug, PartialEq, Eq)]
pub struct RpcDone {
    pub result: Result<Json, String>,
    pub effects: Vec<Effect>,
}

/// The decision of the first half: to reject a request that has no hash,
/// to answer from the cache, or to forward.
pub enum Decision {
    Reject,
    Hit(JsonView),
    Forward(JsonView),
}

/// The decision for a request with the cache key `hash` at `now`, given
/// what the cache holds: a cacheable request whose key is live is answered
/// from the cache, every other request is forwarded.
pub open spec fn spec_route(
    mode: PrivacyMode,
    entries: Map<Seq<char>, EntryView>,
    payload: JsonView,
    hash: Seq<char>,
    now: int,
) -> Decision {
    if spec_should_cache(mode, spec_method(payload)) && lookup(entries, hash, now) is Some {
        Decision::Hit(lookup(entries, hash, now)->0)
    } else {
        Decision::Forward(spec_outbound(mode, payload))
    }
}

/// The cache after the decision for a request with the cache key `hash`:
/// looked up under that key where the request is cacheable, untouched
/// where it is not.
pub open spec fn spec_cache_after_route(
    mode: PrivacyMode,
    entries: Map<Seq<char>, EntryView>,
    payload: JsonView,
    hash: Seq<char>,
    now: int,
) -> Map<Seq<char>, EntryView> {
    if spec_should_cache(mode, spec_method(payload)) {
        after_get(entries, hash, now)
    } else {
        entries
    }
}

/// The decision for a request at `now`: a request that has no cache key is
/// rejected, every other is decided by its key.
pub open spec fn spec_decision(
    mode: PrivacyMode,
    entries: Map<Seq<char>, EntryView>,
    payload: JsonView,
    now: int,
) -> Decision {
    match spec_cache_key(mode, payload) {
        None => Decision::Reject,
        Some(hash) => spec_route(mode, entries, payload, hash, now),
    }
}

/// The cache after the first half.
pub open spec fn spec_cache_after_handle(
    mode: PrivacyMode,
    entries: Map<Seq<char>, EntryView>,
    payload: JsonView,
    now: int,
) -> Map<Seq<char>, EntryView> {
    match spec_cache_key(mode, payload) {
        Some(hash) => spec_cache_after_route(mode, entries, payload, hash, now),
        None => entries,
    }
}

/// The cache after the second half: a successful response to a cacheable
/// request is stored under the request's key, whatever the key held.
pub open spec fn spec_cache_after_finish(
    entries: Map<Seq<char>, EntryView>,
    ticket: TicketView,
    outcome: Result<JsonView, Seq<char>>,
    now: int,
    ttl: int,
) -> Map<Seq<char>, EntryView> {
    match outcome {
        Ok(value) if ticket.cacheable => after_insert(
            entries,
            ticket.request_hash,
            value,
            now,
            ttl,
        ),
        _ => entries,
    }
}

/// The time that a request took, in the caller's unit: never negative.
pub open spec fn spec_latency(started_at: u64, now: u64) -> u64 {
    if now >= started_at {
        (now - started_at) as u64
    } else {
        0
    }
}

/// The method that a request names.
pub fn method_of(payload: &Json) -> (method: String)
    ensures
        method@ == spec_method(payload@),
{
    match payload.get("method") {
        Some(value) => match value.as_str() {
            Some(name) => name.to_owned(),
            None => String::new(),
        },
        None => String::new(),
    }
}

fn log_effect(level: &str, event: &str, hash: Option<&str>, method: &str) -> (effect: Effect)
    ensures
        effect@ == logged(
            level@,
            event@,
            match hash {
                Some(h) => Some(h@),
                None => None,
            },
            method@,
        ),
{
    let entry = LogEvent::new(level, event);
    let entry = match hash {
        Some(h) => entry.with_hash(h.to_owned()),
        None => entry,
    };
    Effect::Log(entry.with_method(method.to_owned()))
}

/// The first half of the request path for a request whose cache key is
/// `request_hash`. The request is reported as seen; a cacheable one is
/// looked up and, if live, answered from the cache; what is not answered is
/// handed out for forwarding, in canonical form where the level normalizes
/// outbound requests.
pub fn handle_hashed_request(
    mode: PrivacyMode,
    cache: &mut Cache,
    payload: Json,
    request_hash: String,
    now: u64,
) -> (step: RpcStep)
    ensures
        final(cache).ttl() == old(cache).ttl(),
        final(cache)@ == spec_cache_after_route(
            mode,
            old(cache)@,
            payload@,
            request_hash@,
            now as int,
        ),
        match spec_route(mode, old(cache)@, payload@, request_hash@, now as int) {
            Decision::Hit(cached) => step matches RpcStep::Respond { result, effects }
                && result matches Ok(value) && value@ == cached && effects_view(effects@)
                == hit_effects(request_hash@, spec_method(payload@)),
            Decision::Forward(request) => step matches RpcStep::Forward {
                outbound,
                ticket,
                effects,
            } && outbound@ == request && ticket@ == (TicketView {
                method: spec_method(payload@),
                request_hash: request_hash@,
                cacheable: spec_should_cache(mode, spec_method(payload@)),
                started_at: now,
            }) && effects_view(effects@) == forward_effects(
                request_hash@,
                spec_method(payload@),
                spec_should_cache(mode, spec_method(payload@)),
            ),
            Decision::Reject => false,
        },
{
    let method = method_of(&payload);
    let mut effects: Vec<Effect> = Vec::new();
    effects.push(Effect::RecordRequest(request_hash.clone()));
    effects.push(log_effect("INFO", "REQ_IN", None, method.as_str()));
    let cacheable = mode.should_cache(method.as_str());
    if cacheable {
        match cache.get(request_hash.as_str(), now) {
            Some(cached) => {
                effects.push(Effect::RecordCacheHit);
                effects.push(
                    log_effect("INFO", "CACHE_HIT", Some(request_hash.as_str()), method.as_str()),
                );
                assert(effects_view(effects@) =~= hit_effects(request_hash@, method@));
                return RpcStep::Respond { result: Ok(cached), effects };
            },
            None => {
                effects.push(Effect::RecordCacheMiss);
                effects.push(
                    log_effect("INFO", "CACHE_MISS", Some(request_hash.as_str()), method.as_str()),
                );
            },
        }
    }
    let outbound = if mode.should_normalize_outbound() {
        normalize_rpc_request(payload)
    } else {
        payload
    };
    effects.push(log_effect("INFO", "NORMALIZED", Some(request_hash.as_str()), method.as_str()));
    effects.push(log_effect("INFO", "FORWARDED", Some(request_hash.as_str()), method.as_str()));
    assert(effects_view(effects@) =~= forward_effects(request_hash@, method@, cacheable));
    RpcStep::Forward {
        outbound,
        ticket: Ticket { method, request_hash, cacheable, started_at: now },
        effects,
    }
}

/// The first half of the request path. A request without a cache key is
/// rejected with no effect at all; every other request takes the path of
/// [`handle_hashed_request`] with its key.
pub fn handle_rpc_request(mode: PrivacyMode, cache: &mut Cache, payload: Json, now: u64) -> (step:
    RpcStep)
    ensures
        final(cache).ttl() == old(cache).ttl(),
        final(cache)@ == spec_cache_after_handle(mode, old(cache)@, payload@, now as int),
        match spec_decision(mode, old(cache)@, payload@, now as int) {
            Decision::Reject => step matches RpcStep::Respond { result, effects } && result is Err
                && effects@.len() == 0,
            Decision::Hit(cached) => step matches RpcStep::Respond { result, effects }
                && result matches Ok(value) && value@ == cached && effects_view(effects@)
                == hit_effects(spec_cache_key(mode, payload@)->0, spec_method(payload@)),
            Decision::Forward(request) => step matches RpcStep::Forward {
                outbound,
                ticket,
                effects,
            } && outbound@ == request && ticket@ == (TicketView {
                method: spec_method(payload@),
                request_hash: spec_cache_key(mode, payload@)->0,
                cacheable: spec_should_cache(mode, spec_method(payload@)),
                started_at: now,
            }) && effects_view(effects@) == forward_effects(
                spec_cache_key(mode, payload@)->0,
                spec_method(payload@),
                spec_should_cache(mode, spec_method(payload@)),
            ),
        },
{
    match request_hash(mode, &payload) {
        Ok(hash) => handle_hashed_request(mode, cache, payload, hash, now),
        Err(error) => RpcStep::Respond { result: Err(error), effects: Vec::new() },
    }
}

/// The second half of the request path, once forwarding is over. A failure
/// is reported and handed on, and the cache stays as it is. A response is
/// stored if the request is cacheable, reported with the time that the
/// request took, and handed on.
pub fn finish_rpc_request(
    cache: &mut Cache,
    ticket: Ticket,
    outcome: Result<Json, String>,
    now: u64,
) -> (done: RpcDone)
    ensures
        final(cache).ttl() == old(cache).ttl(),
        match outcome {
            Ok(value) => done.result matches Ok(response) && response@ == value@ && final(cache)@
                == spec_cache_after_finish(
                old(cache)@,
                ticket@,
                Ok(value@),
                now as int,
                old(cache).ttl(),
            ) && effects_view(done.effects@) == completion_effects(
                ticket@.request_hash,
                ticket@.method,
                spec_latency(ticket@.started_at, now),
            ),
            Err(error) => done.result matches Err(message) && message@ == error@ && final(cache)@
                == old(cache)@ && effects_view(done.effects@) == failure_effects(
                ticket@.request_hash,
                ticket@.method,
                error@,
            ),
        },
{
    let mut effects: Vec<Effect> = Vec::new();
    match outcome {
        Err(error) => {
            let entry = LogEvent::new("ERROR", "ERR").with_hash(
                ticket.request_hash.clone(),
            ).with_method(ticket.method.clone()).with_note(error.clone());
            effects.push(Effect::Log(entry));
            assert(effects_view(effects@) =~= failure_effects(
                ticket@.request_hash,
                ticket@.method,
                error@,
            ));
            RpcDone { result: Err(error), effects }
        },
        Ok(response) => {
            if ticket.cacheable {
                cache.insert(ticket.request_hash.clone(), response.clone(), now);
            }
            let latency: u64 = if now >= ticket.started_at {
                now - ticket.started_at
            } else {
                0
            };
            let entry = LogEvent::new("INFO", "RESP_OUT").with_hash(
                ticket.request_hash.clone(),
            ).with_method(ticket.method.clone()).with_latency(latency);
            effects.push(Effect::Log(entry));
            assert(effects_view(effects@) =~= completion_effects(
                ticket@.request_hash,
                ticket@.method,
                latency,
            ));
            RpcDone { result: Ok(response), effects }
        },
    }
}

/// A cache hit short-circuits forwarding: once the response to a cacheable
/// request is stored, every request with the same key and a cacheable
/// method that arrives before the entry expires is answered with that
/// response, and none of them is forwarded.
pub proof fn lemma_cache_hit_short_circuits(
    mode: PrivacyMode,
    entries: Map<Seq<char>, EntryView>,
    ticket: TicketView,
    response: JsonView,
    stored: int,
    ttl: int,
    payload: JsonView,
    now: int,
)
    requires
        ticket.cacheable,
        spec_should_cache(mode, spec_method(payload)),
        now < stored + ttl,
    ensures
        spec_route(
            mode,
            spec_cache_after_finish(entries, ticket, Ok(response), stored, ttl),
            payload,
            ticket.request_hash,
            now,
        ) == Decision::Hit(response),
        spec_cache_after_route(
            mode,
            spec_cache_after_finish(entries, ticket, Ok(response), stored, ttl),
            payload,
            ticket.request_hash,
            now,
        ) == spec_cache_after_finish(entries, ticket, Ok(response), stored, ttl),
        spec_cache_key(mode, payload) == Some(ticket.request_hash) ==> spec_decision(
            mode,
            spec_cache_after_finish(entries, ticket, Ok(response), stored, ttl),
            payload,
            now,
        ) == Decision::Hit(response),
{
}

/// At the level `Dev` nothing is served from the cache and nothing is
/// stored in it: every request that has a hash is forwarded as it is.
pub proof fn lemma_dev_passes_through(
    entries: Map<Seq<char>, EntryView>,
    payload: JsonView,
    hash: Seq<char>,
    now: int,
)
    ensures
        spec_route(PrivacyMode::Dev, entries, payload, hash, now) == Decision::Forward(payload),
        spec_cache_after_route(PrivacyMode::Dev, entries, payload, hash, now) == entries,
        spec_cache_after_handle(PrivacyMode::Dev, entries, payload, now) == entries,
{
}

} // verus!
