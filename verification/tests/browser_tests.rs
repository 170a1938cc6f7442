use minibrowser::browser::Browser;

#[test]
fn back_and_forward_walk_the_history() {
    let mut b = Browser::new();
    b.navigate("a".to_string());
    b.navigate("b".to_string());
    assert_eq!(b.back(), Some("a".to_string()));
    assert_eq!(b.forward(), Some("b".to_string()));
    assert_eq!(b.back(), Some("a".to_string()));
    assert_eq!(b.back(), None);
}

#[test]
fn back_on_empty_history_returns_nothing() {
    let mut b = Browser::new();
    assert_eq!(b.back(), None);
    assert_eq!(b.forward(), None);
}

#[test]
fn forward_at_latest_returns_nothing() {
    let mut b = Browser::new();
    b.navigate("a".to_string());
    assert_eq!(b.forward(), None);
}

#[test]
fn navigate_truncates_forward_history() {
    let mut b = Browser::new();
    b.navigate("a".to_string());
    b.navigate("b".to_string());
    assert_eq!(b.back(), Some("a".to_string()));
    b.navigate("c".to_string());
    assert_eq!(b.forward(), None);
    assert_eq!(b.back(), Some("a".to_string()));
}

#[test]
fn current_url_follows_the_cursor() {
    let mut b = Browser::new();
    assert_eq!(b.current_url(), None);
    b.navigate("a".to_string());
    b.navigate("b".to_string());
    assert_eq!(b.current_url(), Some("b".to_string()));
    b.back();
    assert_eq!(b.current_url(), Some("a".to_string()));
}

#[test]
fn cache_round_trip() {
    let mut b = Browser::new();
    b.set_cache("u", "body1".to_string());
    assert_eq!(b.get_cache("u"), Some("body1".to_string()));
    b.remove_from_cache("u");
    assert_eq!(b.get_cache("u"), None);
}

#[test]
fn cache_overwrites_an_existing_key() {
    let mut b = Browser::new();
    b.set_cache("u", "old".to_string());
    b.set_cache("u", "new".to_string());
    assert_eq!(b.get_cache("u"), Some("new".to_string()));
}

#[test]
fn cache_misses_on_unknown_key() {
    let b = Browser::new();
    assert_eq!(b.get_cache("nowhere"), None);
}

#[test]
fn clear_cache_drops_everything() {
    let mut b = Browser::new();
    b.set_cache("u", "x".to_string());
    b.set_cache("v", "y".to_string());
    b.clear_cache();
    assert_eq!(b.get_cache("u"), None);
    assert_eq!(b.get_cache("v"), None);
}

#[test]
fn remove_from_cache_on_missing_key_is_a_no_op() {
    let mut b = Browser::new();
    b.set_cache("u", "x".to_string());
    b.remove_from_cache("v");
    assert_eq!(b.get_cache("u"), Some("x".to_string()));
}

#[test]
fn refresh_invalidates_the_current_entry() {
    let mut b = Browser::new();
    b.navigate("u".to_string());
    b.set_cache("u", "stale".to_string());
    b.set_cache("w", "other".to_string());
    b.refresh();
    assert_eq!(b.get_cache("u"), None);
    assert_eq!(b.get_cache("w"), Some("other".to_string()));
}

#[test]
fn refresh_without_history_changes_nothing() {
    let mut b = Browser::new();
    b.set_cache("u", "kept".to_string());
    b.refresh();
    assert_eq!(b.get_cache("u"), Some("kept".to_string()));
}

#[test]
fn bookmarks_keep_order_and_duplicates() {
    let mut b = Browser::new();
    b.add_bookmark("http://one/", "first");
    b.add_bookmark("http://two/", "second");
    b.add_bookmark("http://three/", "first");
    let marks = b.get_bookmarks();
    assert_eq!(marks.len(), 3);
    assert_eq!(marks[0], ("first".to_string(), "http://one/".to_string()));
    assert_eq!(marks[1], ("second".to_string(), "http://two/".to_string()));
    assert_eq!(marks[2], ("first".to_string(), "http://three/".to_string()));
}
