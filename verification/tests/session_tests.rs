use minibrowser::http::ExchangeError;
use minibrowser::session::{FetchPlan, Session, SessionError};
use minibrowser::url::{Url, UrlError};

/// A stand-in for the transport layer that counts how often the network
/// is reached and answers with a fixed response.
struct CountingTransport {
    exchanges: usize,
    response: &'static str,
}

impl CountingTransport {
    fn new(response: &'static str) -> CountingTransport {
        CountingTransport { exchanges: 0, response }
    }

    fn exchange(&mut self, _url: &Url, _request: &str) -> String {
        self.exchanges += 1;
        self.response.to_string()
    }
}

fn fetch(session: &mut Session, transport: &mut CountingTransport, raw: &str) -> Result<String, SessionError> {
    match session.fetch_begin(raw)? {
        FetchPlan::Cached(body) => Ok(body),
        FetchPlan::Fetch(url, request) => {
            let raw_response = transport.exchange(&url, &request);
            session.fetch_complete(&url, &raw_response)
        }
    }
}

#[test]
fn second_fetch_of_same_url_reaches_no_network() {
    let mut s = Session::new();
    let mut t = CountingTransport::new("HTTP/1.1 200 OK\r\n\r\nhello");
    assert_eq!(fetch(&mut s, &mut t, "http://host/path").unwrap(), "hello");
    assert_eq!(t.exchanges, 1);
    assert_eq!(fetch(&mut s, &mut t, "http://host/path").unwrap(), "hello");
    assert_eq!(t.exchanges, 1);
}

#[test]
fn equivalent_addresses_share_one_cache_entry() {
    let mut s = Session::new();
    let mut t = CountingTransport::new("HTTP/1.1 200 OK\r\n\r\nbody");
    assert_eq!(fetch(&mut s, &mut t, "http://host/path").unwrap(), "body");
    assert_eq!(fetch(&mut s, &mut t, "host/path").unwrap(), "body");
    assert_eq!(t.exchanges, 1);
}

#[test]
fn bad_url_short_circuits_with_the_address() {
    let mut s = Session::new();
    let r = s.fetch_begin("http:///path");
    match r {
        Err(SessionError::BadUrl(addr, e)) => {
            assert_eq!(addr, "http:///path");
            assert_eq!(e, UrlError::Empty);
        }
        _ => panic!("expected a bad-URL failure"),
    }
}

#[test]
fn failed_exchange_writes_no_cache_entry() {
    let mut s = Session::new();
    let mut t = CountingTransport::new("garbled");
    match fetch(&mut s, &mut t, "http://host/x") {
        Err(SessionError::Exchange(addr, e)) => {
            assert_eq!(addr, "http://host/x");
            assert_eq!(e, ExchangeError::MalformedStatusLine);
        }
        _ => panic!("expected an exchange failure"),
    }
    assert_eq!(t.exchanges, 1);
    let mut ok = CountingTransport::new("HTTP/1.1 200 OK\r\n\r\nfresh");
    assert_eq!(fetch(&mut s, &mut ok, "http://host/x").unwrap(), "fresh");
    assert_eq!(ok.exchanges, 1);
}

#[test]
fn failed_fetch_still_records_the_visit() {
    let mut s = Session::new();
    let mut t = CountingTransport::new("garbled");
    let _ = fetch(&mut s, &mut t, "http://host/a");
    let mut ok = CountingTransport::new("HTTP/1.1 200 OK\r\n\r\nb");
    let _ = fetch(&mut s, &mut ok, "http://host/b");
    assert_eq!(s.back(), Some("http://host/a".to_string()));
}

#[test]
fn refresh_forces_the_network_again() {
    let mut s = Session::new();
    let mut t = CountingTransport::new("HTTP/1.1 200 OK\r\n\r\nfirst");
    assert_eq!(fetch(&mut s, &mut t, "http://host/p").unwrap(), "first");
    let (url, request) = s.refresh_plan().expect("a current URL to refresh");
    assert_eq!(url.host, "host");
    assert!(request.starts_with("GET /p HTTP/1.1"));
    let mut t2 = CountingTransport::new("HTTP/1.1 200 OK\r\n\r\nsecond");
    let raw = t2.exchange(&url, &request);
    assert_eq!(s.fetch_complete(&url, &raw).unwrap(), "second");
    let mut t3 = CountingTransport::new("HTTP/1.1 200 OK\r\n\r\nthird");
    assert_eq!(fetch(&mut s, &mut t3, "http://host/p").unwrap(), "second");
    assert_eq!(t3.exchanges, 0);
}

#[test]
fn refresh_without_history_plans_nothing() {
    let mut s = Session::new();
    assert!(s.refresh_plan().is_none());
}

#[test]
fn session_back_and_forward_traverse_normalized_urls() {
    let mut s = Session::new();
    let mut t = CountingTransport::new("HTTP/1.1 200 OK\r\n\r\nx");
    let _ = fetch(&mut s, &mut t, "http://a/1");
    let _ = fetch(&mut s, &mut t, "http://b/2");
    assert_eq!(s.back(), Some("http://a/1".to_string()));
    assert_eq!(s.forward(), Some("http://b/2".to_string()));
    assert_eq!(s.forward(), None);
}

#[test]
fn cached_answer_still_records_history() {
    let mut s = Session::new();
    let mut t = CountingTransport::new("HTTP/1.1 200 OK\r\n\r\nhi");
    let _ = fetch(&mut s, &mut t, "http://a/1");
    let _ = fetch(&mut s, &mut t, "http://b/2");
    let _ = fetch(&mut s, &mut t, "http://a/1");
    assert_eq!(t.exchanges, 2);
    assert_eq!(s.back(), Some("http://b/2".to_string()));
    assert_eq!(s.back(), Some("http://a/1".to_string()));
    assert_eq!(s.back(), None);
}

#[test]
fn session_bookmarks_pass_through() {
    let mut s = Session::new();
    s.add_bookmark("http://one/", "first");
    s.add_bookmark("http://two/", "second");
    let marks = s.get_bookmarks();
    assert_eq!(marks.len(), 2);
    assert_eq!(marks[0], ("first".to_string(), "http://one/".to_string()));
    assert_eq!(marks[1], ("second".to_string(), "http://two/".to_string()));
}
