//! The navigation state a session owns: an ordered record of visited
//! URLs with a cursor for back/forward traversal, a response cache keyed
//! by URL, and a bookmark store.
//!
//! Navigating always appends and moves the cursor to the new tail,
//! discarding any forward entries; going back or forward moves the
//! cursor by one and is a no-op at the matching end.

use vstd::prelude::*;

use crate::strmap::StrMap;

verus! {

/// Navigation history, response cache, and bookmarks.
pub struct Browser {
    history: Vec<String>,
    cursor: usize,
    cache: StrMap,
    bookmarks: Vec<(String, String)>,
}

impl Browser {
    /// The visited URLs, oldest first.
    pub closed spec fn history_seq(&self) -> Seq<Seq<char>> {
        self.history.deep_view()
    }

    /// The index of the current history entry.
    pub closed spec fn cursor_at(&self) -> int {
        self.cursor as int
    }

    /// The cached bodies, keyed by URL string.
    pub closed spec fn cache_map(&self) -> Map<Seq<char>, Seq<char>> {
        self.cache@
    }

    /// The bookmarks as (title, URL) pairs, in the order they were
    /// added; titles are neither validated nor deduplicated here.
    pub closed spec fn bookmark_seq(&self) -> Seq<(Seq<char>, Seq<char>)> {
        self.bookmarks.deep_view()
    }

    /// The current URL: the entry under the cursor, or nothing before
    /// any navigation.
    pub open spec fn current(&self) -> Option<Seq<char>> {
        if self.history_seq().len() > 0 {
            Some(self.history_seq()[self.cursor_at()])
        } else {
            None
        }
    }

    /// The cache's own invariant.
    pub closed spec fn cache_wf(&self) -> bool {
        self.cache.wf()
    }

    /// The invariant: the cursor is a valid index whenever any URL has
    /// been visited, and the cache keys are unique.
    pub open spec fn wf(&self) -> bool {
        &&& self.cursor_at() >= 0
        &&& self.history_seq().len() > 0 ==> self.cursor_at() < self.history_seq().len()
        &&& self.history_seq().len() == 0 ==> self.cursor_at() == 0
        &&& self.cache_wf()
    }

    /// A browser with no history, an empty cache, and no bookmarks.
    pub fn new() -> (b: Browser)
        ensures
            b.wf(),
            b.history_seq() == Seq::<Seq<char>>::empty(),
            b.cursor_at() == 0,
            b.cache_map() == Map::<Seq<char>, Seq<char>>::empty(),
            b.bookmark_seq() == Seq::<(Seq<char>, Seq<char>)>::empty(),
    {
        let b = Browser {
            history: Vec::new(),
            cursor: 0,
            cache: StrMap::new(),
            bookmarks: Vec::new(),
        };
        proof {
            assert(b.history.deep_view() =~= Seq::<Seq<char>>::empty());
            assert(b.bookmarks.deep_view() =~= Seq::<(Seq<char>, Seq<char>)>::empty());
        }
        b
    }

    /// The URL under the cursor, or nothing before any navigation.
    pub fn current_url(&self) -> (r: Option<String>)
        requires
            self.wf(),
        ensures
            match r {
                Some(u) => self.current() == Some(u@),
                None => self.current() is None,
            },
    {
        if self.history.len() > 0 {
            proof {
                assert(self.history.deep_view()[self.cursor as int] == self.history@[self.cursor as int]@);
            }
            Some(self.history[self.cursor].clone())
        } else {
            None
        }
    }

    /// Visit `url`: drop every entry after the cursor, append `url`,
    /// and move the cursor to the new tail.
    pub fn navigate(&mut self, url: String)
        requires
            old(self).wf(),
        ensures
            final(self).wf(),
            final(self).history_seq() == (if old(self).history_seq().len() == 0 {
                Seq::<Seq<char>>::empty()
            } else {
                old(self).history_seq().take(old(self).cursor_at() + 1)
            }).push(url@),
            final(self).cursor_at() == final(self).history_seq().len() - 1,
            final(self).current() == Some(url@),
            final(self).cache_map() == old(self).cache_map(),
            final(self).bookmark_seq() == old(self).bookmark_seq(),
    {
        let ghost orig = self.history.deep_view();
        if self.history.len() > 0 {
            self.history.truncate(self.cursor + 1);
            proof {
                assert(self.history.deep_view() =~= orig.take(old(self).cursor_at() + 1));
            }
        }
        self.history.push(url);
        self.cursor = self.history.len() - 1;
        proof {
            if orig.len() == 0 {
                assert(self.history.deep_view() =~= Seq::<Seq<char>>::empty().push(url@));
            } else {
                assert(self.history.deep_view() =~= orig.take(old(self).cursor_at() + 1).push(
                    url@,
                ));
            }
        }
    }

    /// Step the cursor back and return the URL now under it; at the
    /// earliest position (or before any navigation) nothing changes and
    /// nothing is returned.
    pub fn back(&mut self) -> (r: Option<String>)
        requires
            old(self).wf(),
        ensures
            final(self).wf(),
            old(self).history_seq().len() > 0 && old(self).cursor_at() > 0 ==> {
                &&& final(self).cursor_at() == old(self).cursor_at() - 1
                &&& r matches Some(u) && u@ == old(self).history_seq()[old(self).cursor_at() - 1]
                &&& final(self).history_seq() == old(self).history_seq()
                &&& final(self).cache_map() == old(self).cache_map()
                &&& final(self).bookmark_seq() == old(self).bookmark_seq()
            },
            !(old(self).history_seq().len() > 0 && old(self).cursor_at() > 0) ==> r is None
                && *final(self) == *old(self),
    {
        if self.history.len() > 0 && self.cursor > 0 {
            self.cursor = self.cursor - 1;
            proof {
                assert(self.history.deep_view()[self.cursor as int] == self.history@[self.cursor as int]@);
            }
            Some(self.history[self.cursor].clone())
        } else {
            None
        }
    }

    /// Step the cursor forward and return the URL now under it; at the
    /// latest position (or before any navigation) nothing changes and
    /// nothing is returned.
    pub fn forward(&mut self) -> (r: Option<String>)
        requires
            old(self).wf(),
        ensures
            final(self).wf(),
            old(self).history_seq().len() > 0 && old(self).cursor_at() + 1
                < old(self).history_seq().len() ==> {
                &&& final(self).cursor_at() == old(self).cursor_at() + 1
                &&& r matches Some(u) && u@ == old(self).history_seq()[old(self).cursor_at() + 1]
                &&& final(self).history_seq() == old(self).history_seq()
                &&& final(self).cache_map() == old(self).cache_map()
                &&& final(self).bookmark_seq() == old(self).bookmark_seq()
            },
            !(old(self).history_seq().len() > 0 && old(self).cursor_at() + 1 < old(
                self,
            ).history_seq().len()) ==> r is None && *final(self) == *old(self),
    {
        if self.history.len() > 0 && self.cursor + 1 < self.history.len() {
            self.cursor = self.cursor + 1;
            proof {
                assert(self.history.deep_view()[self.cursor as int] == self.history@[self.cursor as int]@);
            }
            Some(self.history[self.cursor].clone())
        } else {
            None
        }
    }

    /// Drop the cached body for the current URL, so the next fetch of
    /// it reaches the network again; without a current URL, a no-op.
    pub fn refresh(&mut self)
        requires
            old(self).wf(),
        ensures
            final(self).wf(),
            final(self).cache_map() == (match old(self).current() {
                Some(u) => old(self).cache_map().remove(u),
                None => old(self).cache_map(),
            }),
            final(self).history_seq() == old(self).history_seq(),
            final(self).cursor_at() == old(self).cursor_at(),
            final(self).bookmark_seq() == old(self).bookmark_seq(),
    {
        if self.history.len() > 0 {
            proof {
                assert(self.history.deep_view()[self.cursor as int] == self.history@[self.cursor as int]@);
            }
            let u = self.history[self.cursor].clone();
            self.cache.remove(u.as_str());
        }
    }

    /// Record `response` as the cached body for `url`.
    pub fn set_cache(&mut self, url: &str, response: String)
        requires
            old(self).wf(),
        ensures
            final(self).wf(),
            final(self).cache_map() == old(self).cache_map().insert(url@, response@),
            final(self).history_seq() == old(self).history_seq(),
            final(self).cursor_at() == old(self).cursor_at(),
            final(self).bookmark_seq() == old(self).bookmark_seq(),
    {
        self.cache.set(url, response);
    }

    /// The cached body for `url`, if one is recorded.
    pub fn get_cache(&self, url: &str) -> (r: Option<String>)
        requires
            self.wf(),
        ensures
            r is Some <==> self.cache_map().contains_key(url@),
            r matches Some(v) ==> self.cache_map()[url@] == v@,
    {
        self.cache.get(url)
    }

    /// Drop the cached body for `url`, if one is recorded.
    pub fn remove_from_cache(&mut self, url: &str)
        requires
            old(self).wf(),
        ensures
            final(self).wf(),
            final(self).cache_map() == old(self).cache_map().remove(url@),
            final(self).history_seq() == old(self).history_seq(),
            final(self).cursor_at() == old(self).cursor_at(),
            final(self).bookmark_seq() == old(self).bookmark_seq(),
    {
        self.cache.remove(url);
    }

    /// Drop every cached body.
    pub fn clear_cache(&mut self)
        requires
            old(self).wf(),
        ensures
            final(self).wf(),
            final(self).cache_map() == Map::<Seq<char>, Seq<char>>::empty(),
            final(self).history_seq() == old(self).history_seq(),
            final(self).cursor_at() == old(self).cursor_at(),
            final(self).bookmark_seq() == old(self).bookmark_seq(),
    {
        self.cache.clear();
    }

    /// Append a bookmark pairing `title` with `url`; titles are not
    /// deduplicated, that is the caller's concern.
    pub fn add_bookmark(&mut self, url: &str, title: &str)
        requires
            old(self).wf(),
        ensures
            final(self).wf(),
            final(self).bookmark_seq() == old(self).bookmark_seq().push((title@, url@)),
            final(self).history_seq() == old(self).history_seq(),
            final(self).cursor_at() == old(self).cursor_at(),
            final(self).cache_map() == old(self).cache_map(),
    {
        let t = String::from_str(title);
        let u = String::from_str(url);
        self.bookmarks.push((t, u));
        proof {
            assert(self.bookmarks.deep_view() =~= old(self).bookmarks.deep_view().push(
                (title@, url@),
            ));
        }
    }

    /// The bookmarks, in the order they were added.
    pub fn get_bookmarks(&self) -> (r: &Vec<(String, String)>)
        ensures
            r.deep_view() == self.bookmark_seq(),
    {
        &self.bookmarks
    }
}

} // verus!
