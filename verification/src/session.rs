//! The session: it owns the browser state and orchestrates one fetch as
//! cache lookup, then network work, then cache fill. The session never
//! performs I/O itself: it hands the caller a plan (a cached body, or a
//! resolved URL with a serialized request), and the caller brings the
//! raw response text back. A fetch that fails leaves the cache
//! untouched, and the visited URL is recorded either way.

use vstd::prelude::*;

use crate::browser::Browser;
use crate::http::{
    build_request, parse_http_response, request_of, response_of, ExchangeError,
};
use crate::url::{
    host_of, http_prefix, https_prefix, lemma_normal_form_resolves, path_of, port_of, resolve,
    scheme_of, Scheme, Url, UrlError,
};

verus! {

/// Failure of the transport layer, classified by the caller that
/// performs the I/O.
#[derive(Clone, Copy, PartialEq, Eq, Structural, Debug)]
pub enum TransportError {
    /// The connection could not be opened: refusal, timeout, or name
    /// lookup failure, one kind at this layer.
    ConnectFailed,
    /// The protocol upgrade to an encrypted stream failed; the caller
    /// discards the connection entirely.
    TlsFailed,
}

/// Failure of one fetch: the most specific kind, annotated with the
/// address that triggered it.
#[derive(Clone, PartialEq, Eq, Debug)]
pub enum SessionError {
    /// The address did not resolve.
    BadUrl(String, UrlError),
    /// The transport could not be established.
    Transport(String, TransportError),
    /// The exchange failed.
    Exchange(String, ExchangeError),
}

/// What a fetch needs next: a cached body answers it at once; otherwise
/// the caller must perform one network exchange and hand the raw
/// response text back to `fetch_complete`.
pub enum FetchPlan {
    /// The cache held the body: no network work.
    Cached(String),
    /// Network work: connect for the URL (upgrading when its scheme is
    /// encrypted), write the serialized request, read the raw response.
    Fetch(Url, String),
}

/// What the cache plans for a key: the stored body, or nothing, in
/// which case the network must be reached.
pub open spec fn plan_of(cache: Map<Seq<char>, Seq<char>>, key: Seq<char>) -> Option<Seq<char>> {
    if cache.contains_key(key) {
        Some(cache[key])
    } else {
        None
    }
}

/// The cache key a raw address selects: the normalized form of its
/// resolution, so textually different addresses that resolve alike hit
/// the same entry.
pub open spec fn key_of(raw: Seq<char>) -> Seq<char> {
    (match scheme_of(raw) {
        Scheme::Plain => http_prefix(),
        Scheme::Encrypted => https_prefix(),
    }) + host_of(raw) + seq!['/'] + path_of(raw)
}

/// A history entry the session records: the normalized form of some
/// well-formed URL, so it resolves again.
pub open spec fn session_entry(s: Seq<char>) -> bool {
    exists|u: Url| u.wf() && u.normal_form() == s
}

/// A fetch session: browser state owned exclusively, mutated only by
/// the orchestration steps here.
pub struct Session {
    browser: Browser,
}

impl Session {
    /// The owned browser state.
    pub closed spec fn state(&self) -> Browser {
        self.browser
    }

    /// The invariant: the browser state is well formed and every
    /// recorded history entry is the normalized form of a resolvable
    /// URL.
    pub open spec fn wf(&self) -> bool {
        &&& self.state().wf()
        &&& forall|i: int|
            0 <= i < self.state().history_seq().len() ==> session_entry(
                #[trigger] self.state().history_seq()[i],
            )
    }

    /// A session with no history and an empty cache.
    pub fn new() -> (s: Session)
        ensures
            s.wf(),
            s.state().history_seq() == Seq::<Seq<char>>::empty(),
            s.state().cache_map() == Map::<Seq<char>, Seq<char>>::empty(),
    {
        Session { browser: Browser::new() }
    }

    /// Begin a fetch of `raw`. Resolution failure short-circuits and
    /// changes nothing. Otherwise the visit is recorded in the history
    /// first — also when the fetch later fails — and the cache decides:
    /// a hit yields the stored body with no network work, a miss yields
    /// the resolved URL and the serialized request for the caller to
    /// send.
    pub fn fetch_begin(&mut self, raw: &str) -> (r: Result<FetchPlan, SessionError>)
        requires
            old(self).wf(),
        ensures
            final(self).wf(),
            final(self).state().bookmark_seq() == old(self).state().bookmark_seq(),
            host_of(raw@).len() == 0 ==> *final(self) == *old(self) && (r matches Err(
                SessionError::BadUrl(s, e),
            ) && s@ == raw@ && e == UrlError::Empty),
            host_of(raw@).len() > 0 ==> {
                &&& final(self).state().history_seq() == (if old(
                    self,
                ).state().history_seq().len() == 0 {
                    Seq::<Seq<char>>::empty()
                } else {
                    old(self).state().history_seq().take(old(self).state().cursor_at() + 1)
                }).push(key_of(raw@))
                &&& final(self).state().cursor_at() == final(self).state().history_seq().len() - 1
                &&& final(self).state().cache_map() == old(self).state().cache_map()
                &&& r matches Ok(p) && (match p {
                    FetchPlan::Cached(b) => plan_of(old(self).state().cache_map(), key_of(raw@))
                        == Some(b@),
                    FetchPlan::Fetch(u, req) => {
                        &&& plan_of(old(self).state().cache_map(), key_of(raw@)) is None
                        &&& u.wf()
                        &&& u.scheme == scheme_of(raw@)
                        &&& u.host@ == host_of(raw@)
                        &&& u.path@ == path_of(raw@)
                        &&& u.port == port_of(scheme_of(raw@))
                        &&& u.normal_form() == key_of(raw@)
                        &&& req@ == request_of(host_of(raw@), path_of(raw@))
                    },
                })
            },
    {
        let u = match resolve(raw) {
            Ok(u) => u,
            Err(e) => {
                let s = String::from_str(raw);
                return Err(SessionError::BadUrl(s, e));
            },
        };
        let key = u.normalized();
        let ghost old_history = self.browser.history_seq();
        self.browser.navigate(key.clone());
        proof {
            assert(session_entry(key@)) by {
                assert(u.wf() && u.normal_form() == key@);
            }
            let trunc = if old_history.len() == 0 {
                Seq::<Seq<char>>::empty()
            } else {
                old_history.take(old(self).state().cursor_at() + 1)
            };
            assert(self.browser.history_seq() == trunc.push(key@));
            assert forall|i: int|
                0 <= i < self.browser.history_seq().len() implies session_entry(
                #[trigger] self.browser.history_seq()[i],
            ) by {
                if i < trunc.len() {
                    assert(self.browser.history_seq()[i] == trunc[i]);
                    assert(trunc[i] == old_history[i]);
                    assert(session_entry(old(self).state().history_seq()[i]));
                } else {
                    assert(self.browser.history_seq()[i] == key@);
                }
            }
        }
        match self.browser.get_cache(key.as_str()) {
            Some(b) => Ok(FetchPlan::Cached(b)),
            None => {
                let req = build_request(u.host.as_str(), u.path.as_str());
                Ok(FetchPlan::Fetch(u, req))
            },
        }
    }

    /// Complete a network fetch for the resolved `url` with the raw
    /// response text the caller read. A parsable response stores its
    /// body in the cache under the URL's key and returns the body; an
    /// unparsable one fails and stores nothing.
    pub fn fetch_complete(&mut self, url: &Url, raw_response: &str) -> (r: Result<
        String,
        SessionError,
    >)
        requires
            old(self).wf(),
        ensures
            final(self).wf(),
            final(self).state().history_seq() == old(self).state().history_seq(),
            final(self).state().cursor_at() == old(self).state().cursor_at(),
            final(self).state().bookmark_seq() == old(self).state().bookmark_seq(),
            match response_of(raw_response@) {
                Some(m) => r matches Ok(b) && b@ == m.body && final(self).state().cache_map()
                    == old(self).state().cache_map().insert(url.normal_form(), m.body),
                None => final(self).state().cache_map() == old(self).state().cache_map() && (
                r matches Err(SessionError::Exchange(s, e)) && s@ == url.normal_form() && e
                    == ExchangeError::MalformedStatusLine),
            },
    {
        match parse_http_response(raw_response) {
            Ok(resp) => {
                let key = url.normalized();
                let body = resp.body;
                self.browser.set_cache(key.as_str(), body.clone());
                Ok(body)
            },
            Err(e) => {
                let key = url.normalized();
                Err(SessionError::Exchange(key, e))
            },
        }
    }

    /// Prepare a refresh: drop the cached body for the current URL and
    /// hand back the resolved URL and serialized request for a forced
    /// network fetch; without a current URL, nothing to do. The caller
    /// completes the fetch through `fetch_complete`.
    pub fn refresh_plan(&mut self) -> (r: Option<(Url, String)>)
        requires
            old(self).wf(),
        ensures
            final(self).wf(),
            final(self).state().history_seq() == old(self).state().history_seq(),
            final(self).state().cursor_at() == old(self).state().cursor_at(),
            final(self).state().bookmark_seq() == old(self).state().bookmark_seq(),
            old(self).state().current() is None ==> r is None && final(self).state().cache_map()
                == old(self).state().cache_map(),
            old(self).state().current() matches Some(key) ==> {
                &&& final(self).state().cache_map() == old(self).state().cache_map().remove(key)
                &&& r matches Some(p) && p.0.wf() && p.0.normal_form() == key && p.1@ == request_of(
                    p.0.host@,
                    p.0.path@,
                )
            },
    {
        let cur = match self.browser.current_url() {
            Some(c) => c,
            None => {
                return None;
            },
        };
        let ghost key = cur@;
        proof {
            assert(old(self).state().current() == Some(key));
            assert(old(self).state().history_seq().len() > 0);
            assert(old(self).state().history_seq()[old(self).state().cursor_at()] == key);
            assert(session_entry(old(self).state().history_seq()[old(self).state().cursor_at()]));
            assert(session_entry(key));
            let u0 = choose|u0: Url| u0.wf() && u0.normal_form() == key;
            lemma_normal_form_resolves(u0);
        }
        self.browser.refresh();
        // A recorded entry is the normalized form of a well-formed URL,
        // so resolving it cannot fail.
        let u = match resolve(cur.as_str()) {
            Ok(u) => u,
            Err(_) => {
                proof {
                    assert(false);
                }
                return None;
            },
        };
        proof {
            let u0 = choose|u0: Url| u0.wf() && u0.normal_form() == key;
            lemma_normal_form_resolves(u0);
            assert(u.host@ == u0.host@ && u.path@ == u0.path@ && u.scheme == u0.scheme);
            assert(u.normal_form() == key);
        }
        let req = build_request(u.host.as_str(), u.path.as_str());
        Some((u, req))
    }

    /// Append a bookmark pairing `title` with `url`.
    pub fn add_bookmark(&mut self, url: &str, title: &str)
        requires
            old(self).wf(),
        ensures
            final(self).wf(),
            final(self).state().bookmark_seq() == old(self).state().bookmark_seq().push(
                (title@, url@),
            ),
            final(self).state().history_seq() == old(self).state().history_seq(),
            final(self).state().cursor_at() == old(self).state().cursor_at(),
            final(self).state().cache_map() == old(self).state().cache_map(),
    {
        self.browser.add_bookmark(url, title);
    }

    /// The bookmarks, in the order they were added.
    pub fn get_bookmarks(&self) -> (r: &Vec<(String, String)>)
        ensures
            r.deep_view() == self.state().bookmark_seq(),
    {
        self.browser.get_bookmarks()
    }

    /// Step back in the history and return the URL now current.
    pub fn back(&mut self) -> (r: Option<String>)
        requires
            old(self).wf(),
        ensures
            final(self).wf(),
            final(self).state().history_seq() == old(self).state().history_seq(),
            final(self).state().cache_map() == old(self).state().cache_map(),
            old(self).state().history_seq().len() > 0 && old(self).state().cursor_at() > 0 ==> {
                &&& final(self).state().cursor_at() == old(self).state().cursor_at() - 1
                &&& r matches Some(u) && u@ == old(self).state().history_seq()[old(
                    self,
                ).state().cursor_at() - 1]
            },
            !(old(self).state().history_seq().len() > 0 && old(self).state().cursor_at() > 0)
                ==> r is None && *final(self) == *old(self),
    {
        self.browser.back()
    }

    /// Step forward in the history and return the URL now current.
    pub fn forward(&mut self) -> (r: Option<String>)
        requires
            old(self).wf(),
        ensures
            final(self).wf(),
            final(self).state().history_seq() == old(self).state().history_seq(),
            final(self).state().cache_map() == old(self).state().cache_map(),
            old(self).state().history_seq().len() > 0 && old(self).state().cursor_at() + 1 < old(
                self,
            ).state().history_seq().len() ==> {
                &&& final(self).state().cursor_at() == old(self).state().cursor_at() + 1
                &&& r matches Some(u) && u@ == old(self).state().history_seq()[old(
                    self,
                ).state().cursor_at() + 1]
            },
            !(old(self).state().history_seq().len() > 0 && old(self).state().cursor_at() + 1 < old(
                self,
            ).state().history_seq().len()) ==> r is None && *final(self) == *old(self),
    {
        self.browser.forward()
    }
}

/// Law: once a fetch completes and stores a body under a key, the plan
/// for that key is a cache hit with that very body — fetching the same
/// URL again with no intervening refresh performs no network work.
pub proof fn lemma_repeat_fetch_is_cached(
    cache: Map<Seq<char>, Seq<char>>,
    key: Seq<char>,
    body: Seq<char>,
)
    ensures
        plan_of(cache.insert(key, body), key) == Some(body),
{
}

} // verus!
