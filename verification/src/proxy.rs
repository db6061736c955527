//! The proxy itself: how a request is answered from the cache or from the
//! upstream API.
//!
//! Authorization gates reads from the cache and never writes to it. A caller
//! without a valid key always pays for the upstream call, and what comes back
//! is cached all the same; a caller with a valid key is served whatever the
//! cache holds, whoever put it there.
//!
//! The upstream call is not made here. A request is handled in two steps
//! with the call between them: [`Proxy::begin`] answers from the cache or
//! asks for a fetch, and [`Proxy::finish`] takes what the fetch gave.
//! [`Proxy::handle`] joins the two for a caller that can fetch in place.
use crate::cache::{
    kept_from, lemma_within_before_insert, part_of, within, Entries, ResponseCache,
    DEFAULT_CAPACITY,
};
use crate::resource::Query;
use crate::route::{route, routed};
use crate::secrets::{credential_valid, SecretStore, Secrets};
use crate::optional_text;
use vstd::prelude::*;
use vstd::string::*;

verus! {

/// The status of an answer that carries a record or a collection.
pub const STATUS_OK: u16 = 200;

/// The status of the answer to a request whose upstream call failed.
pub const STATUS_FAILED: u16 = 500;

/// The port that the proxy listens on unless told otherwise.
pub const DEFAULT_PORT: u16 = 3030;

/// The request header that carries the credential.
pub const CREDENTIAL_HEADER: &'static str = "authorization";

/// The body of the answer to a request whose upstream call failed.
pub const FAILURE_BODY: &'static str = "INTERNAL_SERVER_ERROR";

/// The port to listen on: the one asked for, or the default.
pub fn listening_port(asked: Option<u16>) -> (port: u16)
    ensures
        port == match asked {
            Some(p) => p,
            None => DEFAULT_PORT,
        },
{
    match asked {
        Some(p) => p,
        None => DEFAULT_PORT,
    }
}

/// What a caller is sent back.
#[derive(Debug, PartialEq, Eq)]
pub struct Response {
    pub status: u16,
    pub body: String,
}

/// An answer as a mathematical value: status and body text.
pub struct Answer {
    pub status: u16,
    pub body: Seq<char>,
}

impl View for Response {
    type V = Answer;

    open spec fn view(&self) -> Answer {
        Answer { status: self.status, body: self.body@ }
    }
}

/// What is to happen next with a request.
#[derive(Debug, PartialEq, Eq)]
pub enum Step {
    /// The request is answered; nothing is asked of the upstream API.
    Respond(Response),
    /// The upstream API is to be asked, and the outcome handed to
    /// [`Proxy::finish`].
    Fetch(Query),
}

/// The answer that the cache gives: the body held for the fingerprint, to an
/// authorized caller only.
pub open spec fn cached_answer(authorized: bool, entries: Entries, fingerprint: Seq<char>) -> Option<
    Answer,
> {
    if authorized && entries.contains_key(fingerprint) {
        Some(Answer { status: STATUS_OK, body: entries[fingerprint] })
    } else {
        None
    }
}

/// Whether a request goes to the upstream API: always for a caller that is
/// not authorized, and for an authorized one where the cache holds nothing
/// for the fingerprint.
pub open spec fn needs_fetch(authorized: bool, entries: Entries, fingerprint: Seq<char>) -> bool {
    cached_answer(authorized, entries, fingerprint) is None
}

/// The answer that follows an upstream call: the serialized result, or the
/// fixed failure answer.
pub open spec fn fetched_answer(fetched: Option<Seq<char>>) -> Answer {
    match fetched {
        Some(body) => Answer { status: STATUS_OK, body },
        None => Answer { status: STATUS_FAILED, body: FAILURE_BODY@ },
    }
}

/// What is written to the cache after an upstream call: the body under the
/// fingerprint where the call succeeded, nothing where it failed.
pub open spec fn written(entries: Entries, fingerprint: Seq<char>, fetched: Option<Seq<char>>) -> Entries {
    match fetched {
        Some(body) => entries.insert(fingerprint, body),
        None => entries,
    }
}

/// The answer to a request, given what the upstream API would return if it
/// were asked.
pub open spec fn answer(
    authorized: bool,
    entries: Entries,
    fingerprint: Seq<char>,
    fetched: Option<Seq<char>>,
) -> Answer {
    match cached_answer(authorized, entries, fingerprint) {
        Some(cached) => cached,
        None => fetched_answer(fetched),
    }
}

/// What the cache holds once a request is handled, were there no limit to
/// it: a request served from the cache writes nothing, one that went
/// upstream writes its body.
pub open spec fn kept_without_limit(
    authorized: bool,
    entries: Entries,
    fingerprint: Seq<char>,
    fetched: Option<Seq<char>>,
) -> Entries {
    if needs_fetch(authorized, entries, fingerprint) {
        written(entries, fingerprint, fetched)
    } else {
        entries
    }
}

/// What a cache bounded by `limit` may hold once a request is handled:
/// all that it would hold without a limit where that is within the bound,
/// and a part of it where capacity pressure dropped entries.
pub open spec fn may_hold_after(
    authorized: bool,
    entries: Entries,
    fingerprint: Seq<char>,
    fetched: Option<Seq<char>>,
    limit: Option<u64>,
    later: Entries,
) -> bool {
    kept_from(later, kept_without_limit(authorized, entries, fingerprint, fetched), limit)
}

/// A caller without a valid key is never served from the cache: the request
/// goes upstream whatever the cache holds, an entry for the very fingerprint
/// included, and the answer is the one that the upstream call gives.
pub proof fn lemma_unauthorized_request_goes_upstream(
    entries: Entries,
    fingerprint: Seq<char>,
    fetched: Option<Seq<char>>,
)
    ensures
        needs_fetch(false, entries, fingerprint),
        answer(false, entries, fingerprint, fetched) == fetched_answer(fetched),
{
}

/// Two authorized requests in a row for one fingerprint are answered alike,
/// and the second is served from the cache, where the first was answered
/// with a body and the cache had room to keep it.
///
/// `later` is what the cache holds when the second request arrives: what the
/// first left behind, with nothing written since. A first request whose
/// upstream call failed caches nothing, so the second goes upstream again;
/// that case is left out. Where the cache has no room, the law holds as long
/// as the fingerprint's entry is still there.
pub proof fn lemma_repeated_authorized_request(
    entries: Entries,
    fingerprint: Seq<char>,
    fetched: Option<Seq<char>>,
    limit: Option<u64>,
    later: Entries,
    fetched_again: Option<Seq<char>>,
)
    requires
        may_hold_after(true, entries, fingerprint, fetched, limit, later),
        answer(true, entries, fingerprint, fetched).status == STATUS_OK,
        within(kept_without_limit(true, entries, fingerprint, fetched), limit)
            || later.contains_key(fingerprint),
    ensures
        !needs_fetch(true, later, fingerprint),
        answer(true, later, fingerprint, fetched_again) == answer(
            true,
            entries,
            fingerprint,
            fetched,
        ),
{
}

/// What a caller without a valid key fetched is served to the next caller
/// with one, where the cache had room to keep it: the write is not gated by
/// authorization.
///
/// `later` is what the cache holds when the authorized request arrives,
/// after the unauthorized one succeeded with `body`. Where the cache has no
/// room, the law holds as long as the fingerprint's entry is still there.
pub proof fn lemma_unauthorized_fetch_serves_authorized(
    entries: Entries,
    fingerprint: Seq<char>,
    body: Seq<char>,
    limit: Option<u64>,
    later: Entries,
    fetched_again: Option<Seq<char>>,
)
    requires
        may_hold_after(false, entries, fingerprint, Some(body), limit, later),
        within(entries.insert(fingerprint, body), limit) || later.contains_key(fingerprint),
    ensures
        !needs_fetch(true, later, fingerprint),
        answer(true, later, fingerprint, fetched_again) == (Answer { status: STATUS_OK, body }),
{
}

/// A failed upstream call is answered with status 500 and writes nothing:
/// whatever the cache holds afterwards it held before, so no entry appears
/// for the fingerprint.
pub proof fn lemma_failed_fetch_leaves_cache(
    authorized: bool,
    entries: Entries,
    fingerprint: Seq<char>,
    limit: Option<u64>,
    later: Entries,
)
    requires
        needs_fetch(authorized, entries, fingerprint),
        may_hold_after(authorized, entries, fingerprint, None, limit, later),
    ensures
        answer(authorized, entries, fingerprint, None) == (Answer {
            status: STATUS_FAILED,
            body: FAILURE_BODY@,
        }),
        part_of(later, entries),
        !entries.contains_key(fingerprint) ==> !later.contains_key(fingerprint),
{
}

/// The proxy: the store of API keys and the response cache.
pub struct Proxy {
    secrets: SecretStore,
    cache: ResponseCache,
}

impl Proxy {
    /// The API keys that the proxy accepts.
    pub closed spec fn secrets(&self) -> Secrets {
        self.secrets@
    }

    /// The entries of the response cache.
    pub closed spec fn entries(&self) -> Entries {
        self.cache@
    }

    /// The capacity that the response cache was built with.
    pub closed spec fn spec_capacity(&self) -> Option<u64> {
        self.cache.spec_capacity()
    }

    /// Whether the proxy takes a credential for valid.
    pub open spec fn authorizes(&self, credential: Option<String>) -> bool {
        credential_valid(self.secrets(), optional_text(credential))
    }

    /// A proxy over the given store of API keys, with an empty cache of the
    /// default capacity.
    pub fn new(secrets: SecretStore) -> (proxy: Self)
        ensures
            proxy.secrets() == secrets@,
            proxy.entries() == Entries::empty(),
            proxy.spec_capacity() == Some(DEFAULT_CAPACITY),
    {
        Proxy { secrets, cache: ResponseCache::new(DEFAULT_CAPACITY) }
    }

    /// A proxy over the given store of API keys, with an empty cache that
    /// keeps at most `max_entries` entries.
    pub fn with_capacity(secrets: SecretStore, max_entries: u64) -> (proxy: Self)
        ensures
            proxy.secrets() == secrets@,
            proxy.entries() == Entries::empty(),
            proxy.spec_capacity() == Some(max_entries),
    {
        Proxy { secrets, cache: ResponseCache::new(max_entries) }
    }

    /// The capacity that the response cache was built with.
    #[verifier::when_used_as_spec(spec_capacity)]
    pub fn capacity(&self) -> (limit: Option<u64>)
        ensures
            limit == self.spec_capacity(),
    {
        self.cache.capacity()
    }

    /// Decides whether a credential authorizes its bearer.
    pub fn is_authorized(&self, credential: Option<String>) -> (authorized: bool)
        ensures
            authorized == self.authorizes(credential),
    {
        self.secrets.is_key_valid(credential)
    }

    /// The first step of a request: answers from the cache where the caller
    /// is authorized and the cache holds the fingerprint, and asks for the
    /// upstream call in every other case.
    ///
    /// The cache is consulted for an authorized caller only. Nothing is
    /// written. Where the cache was consulted and holds more than its
    /// capacity, entries may have been dropped; in every other case it is
    /// left as it was.
    pub fn begin(&mut self, query: Query, credential: Option<String>) -> (step: Step)
        ensures
            match step {
                Step::Respond(response) => cached_answer(
                    old(self).authorizes(credential),
                    old(self).entries(),
                    query.spec_fingerprint(),
                ) == Some(response@),
                Step::Fetch(asked) => asked == query && needs_fetch(
                    old(self).authorizes(credential),
                    old(self).entries(),
                    query.spec_fingerprint(),
                ),
            },
            final(self).secrets() == old(self).secrets(),
            final(self).spec_capacity() == old(self).spec_capacity(),
            kept_from(final(self).entries(), old(self).entries(), old(self).spec_capacity()),
            !old(self).authorizes(credential) ==> final(self).entries() == old(self).entries(),
    {
        if !self.secrets.is_key_valid(credential) {
            return Step::Fetch(query);
        }
        let key = query.fingerprint();
        match self.cache.get(key.as_str()) {
            Some(body) => Step::Respond(Response { status: STATUS_OK, body }),
            None => Step::Fetch(query),
        }
    }

    /// Takes a request as it comes off the wire: finds the query that the
    /// path asks for and makes the first step for it. `None` where the proxy
    /// serves no such path; the request then touches neither store nor
    /// cache.
    pub fn receive(&mut self, path: &str, credential: Option<String>) -> (step: Option<Step>)
        ensures
            match routed(path@) {
                None => step is None && final(self).entries() == old(self).entries(),
                Some(query) => match step {
                    Some(Step::Respond(response)) => cached_answer(
                        old(self).authorizes(credential),
                        old(self).entries(),
                        query.spec_fingerprint(),
                    ) == Some(response@),
                    Some(Step::Fetch(asked)) => asked == query && needs_fetch(
                        old(self).authorizes(credential),
                        old(self).entries(),
                        query.spec_fingerprint(),
                    ),
                    None => false,
                },
            },
            final(self).secrets() == old(self).secrets(),
            final(self).spec_capacity() == old(self).spec_capacity(),
            kept_from(final(self).entries(), old(self).entries(), old(self).spec_capacity()),
            !old(self).authorizes(credential) ==> final(self).entries() == old(self).entries(),
    {
        match route(path) {
            Some(query) => Some(self.begin(query, credential)),
            None => None,
        }
    }

    /// The second step of a request that went upstream, given the outcome of
    /// the call.
    ///
    /// A serialized result is written to the cache under the query's
    /// fingerprint, whether or not the caller was authorized, and sent back
    /// with status 200. Where the cache stays within its capacity it holds
    /// the new entry beside all the old ones; where it does not, entries may
    /// have been dropped, but whoever finds the fingerprint in the cache
    /// afterwards finds this body. A failure is answered with status 500 and
    /// the fixed failure body, and the cache is left exactly as it was.
    pub fn finish(&mut self, query: Query, fetched: Option<String>) -> (response: Response)
        ensures
            response@ == fetched_answer(optional_text(fetched)),
            kept_from(
                final(self).entries(),
                written(old(self).entries(), query.spec_fingerprint(), optional_text(fetched)),
                old(self).spec_capacity(),
            ),
            fetched is None ==> final(self).entries() == old(self).entries(),
            fetched matches Some(body) ==> (final(self).entries().contains_key(
                query.spec_fingerprint(),
            ) ==> final(self).entries()[query.spec_fingerprint()] == body@),
            final(self).secrets() == old(self).secrets(),
            final(self).spec_capacity() == old(self).spec_capacity(),
    {
        match fetched {
            Some(body) => {
                self.cache.insert(query.fingerprint(), body.clone());
                Response { status: STATUS_OK, body }
            },
            None => Response { status: STATUS_FAILED, body: String::from_str(FAILURE_BODY) },
        }
    }

    /// Handles a request with an upstream call that can be made in place.
    ///
    /// `fetch` stands for the upstream API: it is called once where the
    /// request needs a fetch and not at all where the cache answers.
    pub fn handle<F: FnOnce(Query) -> Option<String>>(
        &mut self,
        query: Query,
        credential: Option<String>,
        fetch: F,
    ) -> (response: Response)
        requires
            fetch.requires((query,)),
        ensures
            exists|fetched: Option<String>|
                #![trigger optional_text(fetched)]
                {
                    &&& needs_fetch(
                        old(self).authorizes(credential),
                        old(self).entries(),
                        query.spec_fingerprint(),
                    ) ==> fetch.ensures((query,), fetched)
                    &&& response@ == answer(
                        old(self).authorizes(credential),
                        old(self).entries(),
                        query.spec_fingerprint(),
                        optional_text(fetched),
                    )
                    &&& may_hold_after(
                        old(self).authorizes(credential),
                        old(self).entries(),
                        query.spec_fingerprint(),
                        optional_text(fetched),
                        old(self).spec_capacity(),
                        final(self).entries(),
                    )
                },
            final(self).secrets() == old(self).secrets(),
            final(self).spec_capacity() == old(self).spec_capacity(),
    {
        match self.begin(query, credential) {
            Step::Respond(response) => {
                proof {
                    // Nothing was fetched; any outcome bears witness.
                    let fetched: Option<String> = None;
                    assert(optional_text(fetched) is None);
                }
                response
            },
            Step::Fetch(asked) => {
                let fetched = fetch(asked);
                let ghost outcome = optional_text(fetched);
                let response = self.finish(asked, fetched);
                proof {
                    assert(response@ == fetched_answer(outcome));
                    // A cache with room for the new entry had room before,
                    // so the first step left it as it was.
                    if let Some(body) = outcome {
                        let unbounded = old(self).entries().insert(query.spec_fingerprint(), body);
                        if within(unbounded, old(self).spec_capacity()) {
                            lemma_within_before_insert(
                                old(self).entries(),
                                query.spec_fingerprint(),
                                body,
                                old(self).spec_capacity(),
                            );
                        }
                    }
                }
                response
            },
        }
    }
}

} // verus!
