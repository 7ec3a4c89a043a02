use user_service::router::{param_value, split_path, Method, Pattern, Router};

fn seg_strings(v: &[&str]) -> Vec<String> {
    v.iter().map(|s| s.to_string()).collect()
}

#[test]
fn split_keeps_empty_segments() {
    let segs = split_path("/users/ann@x.com");
    assert_eq!(segs, seg_strings(&["", "users", "ann@x.com"]));
    assert_eq!(split_path("/"), seg_strings(&["", ""]));
    assert_eq!(split_path(""), seg_strings(&[""]));
    assert_eq!(split_path("a//b"), seg_strings(&["a", "", "b"]));
}

#[test]
fn literal_pattern_matches_exactly() {
    let p = Pattern::parse("/users").unwrap();
    assert!(p.match_segs(&split_path("/users")).is_some());
    assert!(p.match_segs(&split_path("/Users")).is_none());
    assert!(p.match_segs(&split_path("/users/extra")).is_none());
    assert!(p.match_segs(&split_path("/")).is_none());
}

#[test]
fn placeholder_binds_segment_value() {
    let p = Pattern::parse("/users/:id").unwrap();
    let binds = p.match_segs(&split_path("/users/ann@x.com")).unwrap();
    assert_eq!(binds, vec![("id".to_string(), "ann@x.com".to_string())]);
    // a placeholder refuses an empty segment
    assert!(p.match_segs(&split_path("/users/")).is_none());
}

#[test]
fn catch_all_binds_remaining_segments() {
    let p = Pattern::parse("/files/*rest").unwrap();
    let binds = p.match_segs(&split_path("/files/a/b/c")).unwrap();
    assert_eq!(binds, vec![("rest".to_string(), "a/b/c".to_string())]);
}

#[test]
fn catch_all_must_be_last() {
    assert!(Pattern::parse("/*rest/files").is_none());
    assert!(Pattern::parse("/files/*rest").is_some());
}

#[test]
fn dispatch_picks_matching_method_and_path() {
    let mut r: Router<u32> = Router::new();
    assert!(r.register(Method::Get, "/users/:id", 1));
    assert!(r.register(Method::Post, "/users", 2));
    let (h, params) = r.dispatch(Method::Get, "/users/bob").unwrap();
    assert_eq!(*h, 1);
    assert_eq!(param_value(&params, "id").unwrap().as_str(), "bob");
    let (h, params) = r.dispatch(Method::Post, "/users").unwrap();
    assert_eq!(*h, 2);
    assert!(params.is_empty());
}

#[test]
fn dispatch_without_match_returns_none() {
    let mut r: Router<u32> = Router::new();
    assert!(r.register(Method::Get, "/users/:id", 1));
    assert!(r.dispatch(Method::Post, "/users/bob").is_none());
    assert!(r.dispatch(Method::Get, "/nothing").is_none());
    let empty: Router<u32> = Router::new();
    assert!(empty.dispatch(Method::Get, "/").is_none());
}

#[test]
fn first_registered_match_wins() {
    let mut r: Router<u32> = Router::new();
    assert!(r.register(Method::Get, "/users/:id", 1));
    assert!(r.register(Method::Get, "/users/me", 2));
    // both patterns accept the path; the earlier registration is selected
    let (h, params) = r.dispatch(Method::Get, "/users/me").unwrap();
    assert_eq!(*h, 1);
    assert_eq!(param_value(&params, "id").unwrap().as_str(), "me");
}

#[test]
fn dispatch_through_catch_all_binds_rest() {
    let mut r: Router<u32> = Router::new();
    assert!(r.register(Method::Get, "/files/*rest", 7));
    let (h, params) = r.dispatch(Method::Get, "/files/a/b/c").unwrap();
    assert_eq!(*h, 7);
    assert_eq!(param_value(&params, "rest").unwrap().as_str(), "a/b/c");
}

#[test]
fn rejected_registration_leaves_table_unchanged() {
    let mut r: Router<u32> = Router::new();
    assert!(!r.register(Method::Get, "/*rest/files", 1));
    assert!(r.dispatch(Method::Get, "/anything/files").is_none());
    assert!(r.register(Method::Get, "/ok", 2));
    assert_eq!(*r.dispatch(Method::Get, "/ok").unwrap().0, 2);
}

#[test]
fn param_value_finds_first_occurrence() {
    let params = vec![
        ("a".to_string(), "1".to_string()),
        ("b".to_string(), "2".to_string()),
        ("a".to_string(), "3".to_string()),
    ];
    assert_eq!(param_value(&params, "a").unwrap().as_str(), "1");
    assert_eq!(param_value(&params, "b").unwrap().as_str(), "2");
    assert!(param_value(&params, "c").is_none());
}
