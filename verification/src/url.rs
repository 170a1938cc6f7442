//! URL resolution: a raw address string is decomposed into a scheme, a
//! host, a path, and a scheme-derived port. An address whose host segment
//! is empty is rejected.

use vstd::prelude::*;

use crate::text::{dec_str, find_from, lemma_find_from, u16_to_dec};

verus! {

/// The transport selector a URL's prefix picks: a plain byte stream, or
/// one upgraded by a handshake to an encrypted stream.
#[derive(Clone, Copy, PartialEq, Eq, Structural, Debug)]
pub enum Scheme {
    Plain,
    Encrypted,
}

/// Failure of URL resolution.
#[derive(Clone, Copy, PartialEq, Eq, Structural, Debug)]
pub enum UrlError {
    /// The host segment of the address is empty.
    Empty,
}

/// The characters of the plain scheme prefix.
pub open spec fn http_prefix() -> Seq<char> {
    seq!['h', 't', 't', 'p', ':', '/', '/']
}

/// The characters of the encrypted scheme prefix.
pub open spec fn https_prefix() -> Seq<char> {
    seq!['h', 't', 't', 'p', 's', ':', '/', '/']
}

/// `s` begins with `p`.
pub open spec fn starts_with(s: Seq<char>, p: Seq<char>) -> bool {
    s.len() >= p.len() && s.take(p.len() as int) == p
}

/// The scheme a raw address names: encrypted under the encrypted prefix,
/// plain otherwise (an absent prefix defaults to plain).
pub open spec fn scheme_of(s: Seq<char>) -> Scheme {
    if starts_with(s, https_prefix()) {
        Scheme::Encrypted
    } else {
        Scheme::Plain
    }
}

/// The raw address with a recognized scheme prefix stripped.
pub open spec fn remainder_of(s: Seq<char>) -> Seq<char> {
    if starts_with(s, https_prefix()) {
        s.skip(https_prefix().len() as int)
    } else if starts_with(s, http_prefix()) {
        s.skip(http_prefix().len() as int)
    } else {
        s
    }
}

/// The host segment of a raw address: everything in the remainder before
/// its first slash.
pub open spec fn host_of(s: Seq<char>) -> Seq<char> {
    let r = remainder_of(s);
    r.take(find_from(r, 0, '/'))
}

/// The path segment of a raw address: everything in the remainder after
/// its first slash; empty when there is no slash (a root request).
pub open spec fn path_of(s: Seq<char>) -> Seq<char> {
    let r = remainder_of(s);
    let j = find_from(r, 0, '/');
    if j < r.len() {
        r.skip(j + 1)
    } else {
        Seq::empty()
    }
}

/// The port a scheme selects.
pub open spec fn port_of(sch: Scheme) -> u16 {
    match sch {
        Scheme::Plain => 80,
        Scheme::Encrypted => 443,
    }
}

/// A resolved address: a non-empty, slash-free host, a path, and the
/// port its scheme derives.
#[derive(Debug)]
pub struct Url {
    pub scheme: Scheme,
    pub host: String,
    pub path: String,
    pub port: u16,
}

impl Url {
    /// What resolution establishes: the host is non-empty and holds no
    /// slash, and the port is the scheme's.
    pub open spec fn wf(&self) -> bool {
        &&& self.host@.len() > 0
        &&& forall|i: int| 0 <= i < self.host@.len() ==> self.host@[i] != '/'
        &&& self.port == port_of(self.scheme)
    }

    /// The normalized string form: scheme prefix, host, one slash, path.
    /// Two raw addresses that resolve to the same `Url` have the same
    /// normalized form, so a cache keyed by it treats them as one entry.
    pub open spec fn normal_form(&self) -> Seq<char> {
        (match self.scheme {
            Scheme::Plain => http_prefix(),
            Scheme::Encrypted => https_prefix(),
        }) + self.host@ + seq!['/'] + self.path@
    }

    /// Build the normalized string form.
    pub fn normalized(&self) -> (r: String)
        ensures
            r@ == self.normal_form(),
    {
        let mut r = String::new();
        match self.scheme {
            Scheme::Plain => {
                proof {
                    reveal_strlit("http://");
                    assert("http://"@ =~= http_prefix());
                }
                r.append("http://");
            },
            Scheme::Encrypted => {
                proof {
                    reveal_strlit("https://");
                    assert("https://"@ =~= https_prefix());
                }
                r.append("https://");
            },
        }
        r.append(self.host.as_str());
        proof {
            reveal_strlit("/");
            assert("/"@ =~= seq!['/']);
        }
        r.append("/");
        r.append(self.path.as_str());
        proof {
            assert(r@ =~= self.normal_form());
        }
        r
    }

    /// The connection address for the transport layer: host, a colon,
    /// and the decimal port.
    pub fn authority(&self) -> (r: String)
        ensures
            r@ == self.host@ + seq![':'] + dec_str(self.port as int),
    {
        let mut r = String::from_str(self.host.as_str());
        proof {
            reveal_strlit(":");
            assert(":"@ =~= seq![':']);
        }
        r.append(":");
        let p = u16_to_dec(self.port);
        r.append(p.as_str());
        r
    }
}

/// `s` begins with the characters of `p`.
fn has_prefix(s: &str, p: &str) -> (b: bool)
    ensures
        b == starts_with(s@, p@),
{
    let pn: usize = p.unicode_len();
    let n: usize = s.unicode_len();
    if n < pn {
        return false;
    }
    let mut i: usize = 0;
    while i < pn
        invariant
            i <= pn <= n,
            n == s@.len(),
            pn == p@.len(),
            forall|j: int| 0 <= j < i ==> s@[j] == p@[j],
        decreases pn - i,
    {
        if s.get_char(i) != p.get_char(i) {
            proof {
                assert(s@.take(pn as int)[i as int] == s@[i as int]);
            }
            return false;
        }
        i = i + 1;
    }
    proof {
        assert(s@.take(pn as int) =~= p@);
    }
    true
}

/// Resolve a raw address: strip a recognized scheme prefix, split the
/// remainder at its first slash into host and path, and derive the port
/// from the scheme. Fails exactly when the host segment is empty; an
/// empty path is a valid root request.
pub fn resolve(raw: &str) -> (r: Result<Url, UrlError>)
    ensures
        r is Ok <==> host_of(raw@).len() > 0,
        r matches Ok(u) ==> {
            &&& u.wf()
            &&& u.scheme == scheme_of(raw@)
            &&& u.host@ == host_of(raw@)
            &&& u.path@ == path_of(raw@)
            &&& u.port == port_of(scheme_of(raw@))
        },
        r matches Err(e) ==> e == UrlError::Empty,
{
    let encrypted = has_prefix(raw, "https://");
    let plain_prefixed = has_prefix(raw, "http://");
    proof {
        reveal_strlit("https://");
        reveal_strlit("http://");
        assert("https://"@ =~= https_prefix());
        assert("http://"@ =~= http_prefix());
    }
    let start: usize = if encrypted {
        8
    } else if plain_prefixed {
        7
    } else {
        0
    };
    let n: usize = raw.unicode_len();
    let rem = raw.substring_char(start, n);
    proof {
        assert(rem@ =~= remainder_of(raw@));
    }
    let rn: usize = rem.unicode_len();
    let j = crate::text::find_char_from(rem, 0, '/');
    if j == 0 {
        return Err(UrlError::Empty);
    }
    proof {
        lemma_find_from(rem@, 0, '/');
    }
    let host = String::from_str(rem.substring_char(0, j));
    let path = if j < rn {
        String::from_str(rem.substring_char(j + 1, rn))
    } else {
        String::new()
    };
    let (scheme, port): (Scheme, u16) = if encrypted {
        (Scheme::Encrypted, 443)
    } else {
        (Scheme::Plain, 80)
    };
    Ok(Url { scheme, host, path, port })
}

/// The host segment of a raw address (empty when the address has none).
pub fn parse_url(url: &str) -> (host: String)
    ensures
        host@ == host_of(url@),
{
    let encrypted = has_prefix(url, "https://");
    let plain_prefixed = has_prefix(url, "http://");
    proof {
        reveal_strlit("https://");
        reveal_strlit("http://");
        assert("https://"@ =~= https_prefix());
        assert("http://"@ =~= http_prefix());
    }
    let start: usize = if encrypted {
        8
    } else if plain_prefixed {
        7
    } else {
        0
    };
    let n: usize = url.unicode_len();
    let rem = url.substring_char(start, n);
    proof {
        assert(rem@ =~= remainder_of(url@));
    }
    let j = crate::text::find_char_from(rem, 0, '/');
    proof {
        lemma_find_from(rem@, 0, '/');
    }
    String::from_str(rem.substring_char(0, j))
}

/// The port a raw address's scheme selects.
pub fn get_port(url: &str) -> (port: u16)
    ensures
        port == port_of(scheme_of(url@)),
{
    let encrypted = has_prefix(url, "https://");
    proof {
        reveal_strlit("https://");
        assert("https://"@ =~= https_prefix());
    }
    if encrypted {
        443
    } else {
        80
    }
}

/// Check a split address: the host must be non-empty. An empty path is a
/// valid root request, so the path takes no part in the check.
pub fn validate_url(host: &str, _path: &str) -> (r: Result<(), UrlError>)
    ensures
        r is Ok <==> host@.len() > 0,
        r matches Err(e) ==> e == UrlError::Empty,
{
    if host.is_empty() {
        Err(UrlError::Empty)
    } else {
        Ok(())
    }
}

/// The remainder `host + '/' + path` splits back into `host` and `path`
/// when the host holds no slash.
proof fn lemma_host_path_split(host: Seq<char>, path: Seq<char>)
    requires
        forall|i: int| 0 <= i < host.len() ==> host[i] != '/',
    ensures
        find_from(host + seq!['/'] + path, 0, '/') == host.len(),
        (host + seq!['/'] + path).take(host.len() as int) == host,
        (host + seq!['/'] + path).skip(host.len() as int + 1) == path,
{
    let r = host + seq!['/'] + path;
    lemma_find_from(r, 0, '/');
    let f = find_from(r, 0, '/');
    assert(r[host.len() as int] == '/');
    if f < host.len() {
        assert(r[f] == host[f]);
        assert(false);
    }
    assert(f == host.len());
    assert(r.take(host.len() as int) =~= host);
    assert(r.skip(host.len() as int + 1) =~= path);
}

/// Law: a plain address written as the plain prefix, a host, a slash and
/// a path resolves to exactly that host and that path, for every
/// non-empty slash-free host and every path.
pub proof fn lemma_resolve_plain(host: Seq<char>, path: Seq<char>)
    requires
        host.len() > 0,
        forall|i: int| 0 <= i < host.len() ==> host[i] != '/',
    ensures
        scheme_of(http_prefix() + host + seq!['/'] + path) == Scheme::Plain,
        host_of(http_prefix() + host + seq!['/'] + path) == host,
        path_of(http_prefix() + host + seq!['/'] + path) == path,
{
    let s = http_prefix() + host + seq!['/'] + path;
    assert(s[4] == ':');
    if starts_with(s, https_prefix()) {
        assert(s.take(https_prefix().len() as int)[4] == s[4]);
        assert(false);
    }
    assert(s.take(7) =~= http_prefix());
    assert(starts_with(s, http_prefix()));
    assert(s.skip(7) =~= host + seq!['/'] + path);
    lemma_host_path_split(host, path);
}

/// Law: an encrypted address with no slash after the host resolves to
/// that host, an empty path (a root request), and the encrypted port.
pub proof fn lemma_resolve_encrypted_root(host: Seq<char>)
    requires
        host.len() > 0,
        forall|i: int| 0 <= i < host.len() ==> host[i] != '/',
    ensures
        scheme_of(https_prefix() + host) == Scheme::Encrypted,
        host_of(https_prefix() + host) == host,
        path_of(https_prefix() + host) == Seq::<char>::empty(),
        port_of(scheme_of(https_prefix() + host)) == 443,
{
    let s = https_prefix() + host;
    assert(s.take(8) =~= https_prefix());
    assert(starts_with(s, https_prefix()));
    assert(s.skip(8) =~= host);
    let r = remainder_of(s);
    lemma_find_from(r, 0, '/');
    let f = find_from(r, 0, '/');
    if f < host.len() {
        assert(host[f] == '/');
        assert(false);
    }
    assert(host.take(f) =~= host);
}

/// Law: resolving a URL's normalized form gives the URL back, so the
/// normalized form is a sound cache key: every raw address that resolves
/// to this URL is answered by the same entry.
pub proof fn lemma_normal_form_resolves(u: Url)
    requires
        u.wf(),
    ensures
        scheme_of(u.normal_form()) == u.scheme,
        host_of(u.normal_form()) == u.host@,
        path_of(u.normal_form()) == u.path@,
        host_of(u.normal_form()).len() > 0,
        port_of(scheme_of(u.normal_form())) == u.port,
{
    match u.scheme {
        Scheme::Plain => {
            lemma_resolve_plain(u.host@, u.path@);
        },
        Scheme::Encrypted => {
            let s = https_prefix() + u.host@ + seq!['/'] + u.path@;
            assert(s.take(8) =~= https_prefix());
            assert(starts_with(s, https_prefix()));
            assert(s.skip(8) =~= u.host@ + seq!['/'] + u.path@);
            lemma_host_path_split(u.host@, u.path@);
        },
    }
}

} // verus!
