use user_service::router::Method;
use user_service::service::{Response, ResponseBody, Service};
use user_service::user::Store;

const ANN: &str = "{\"name\":\"Ann\",\"email\":\"ann@x.com\",\"password\":\"secret\"}";

fn text_of(r: &Response) -> &str {
    match &r.body {
        ResponseBody::Text(s) => s.as_str(),
        _ => panic!("expected a text body"),
    }
}

#[test]
fn root_answers_greeting() {
    let service = Service::new();
    let mut store = Store::new();
    let r = service.handle(&mut store, Method::Get, "/", "", "0.0.1");
    assert_eq!(r.status, 200);
    assert_eq!(text_of(&r), "Hello from Workers!");
}

#[test]
fn create_answers_public_view_without_password() {
    let service = Service::new();
    let mut store = Store::new();
    let r = service.handle(&mut store, Method::Post, "/users", ANN, "0.0.1");
    assert_eq!(r.status, 200);
    match &r.body {
        ResponseBody::User(v) => {
            assert_eq!(v.name, "Ann");
            assert_eq!(v.email, "ann@x.com");
            // the response carries name and email only; neither holds the
            // password string
            assert!(!v.name.contains("secret"));
            assert!(!v.email.contains("secret"));
        },
        _ => panic!("expected the public view"),
    }
}

#[test]
fn create_then_fetch_returns_stored_record() {
    let service = Service::new();
    let mut store = Store::new();
    service.handle(&mut store, Method::Post, "/users", ANN, "0.0.1");
    let r = service.handle(&mut store, Method::Get, "/users/ann@x.com", "", "0.0.1");
    assert_eq!(r.status, 200);
    match &r.body {
        ResponseBody::Record(rec) => {
            assert_eq!(rec.name, "Ann");
            assert_eq!(rec.email, "ann@x.com");
            assert_eq!(rec.password, "secret");
        },
        _ => panic!("expected the stored record"),
    }
}

#[test]
fn create_with_bad_body_answers_wrong_data_and_writes_nothing() {
    let service = Service::new();
    let mut store = Store::new();
    let bad = "{\"name\":\"Ann\",\"password\":\"secret\"}";
    let r = service.handle(&mut store, Method::Post, "/users", bad, "0.0.1");
    assert_eq!(r.status, 400);
    assert_eq!(text_of(&r), "Wrong Data");
    let after = service.handle(&mut store, Method::Get, "/users/ann@x.com", "", "0.0.1");
    assert_eq!(after.status, 404);
    assert_eq!(text_of(&after), "User not found");
}

#[test]
fn fetch_of_unknown_user_answers_user_not_found() {
    let service = Service::new();
    let mut store = Store::new();
    let r = service.handle(&mut store, Method::Get, "/users/nobody@x.com", "", "0.0.1");
    assert_eq!(r.status, 404);
    assert_eq!(text_of(&r), "User not found");
}

#[test]
fn unmatched_requests_answer_not_found() {
    let service = Service::new();
    let mut store = Store::new();
    for (m, path) in [
        (Method::Get, "/nothing"),
        (Method::Post, "/"),
        (Method::Post, "/users/ann@x.com"),
        (Method::Get, "/users"),
        (Method::Get, "/users/a/b"),
    ] {
        let r = service.handle(&mut store, m, path, "", "0.0.1");
        assert_eq!(r.status, 404);
        assert_eq!(text_of(&r), "Not Found");
    }
}

#[test]
fn version_probe_answers_version_whatever_the_store_holds() {
    let service = Service::new();
    let mut empty = Store::new();
    let r = service.handle(&mut empty, Method::Get, "/worker-version", "", "0.0.1");
    assert_eq!(r.status, 200);
    assert_eq!(text_of(&r), "0.0.1");
    assert!(!text_of(&r).is_empty());
    let mut filled = Store::new();
    service.handle(&mut filled, Method::Post, "/users", ANN, "0.0.1");
    let r = service.handle(&mut filled, Method::Get, "/worker-version", "", "0.0.1");
    assert_eq!(r.status, 200);
    assert_eq!(text_of(&r), "0.0.1");
}

#[test]
fn overwrite_then_fetch_sees_second_record_only() {
    let service = Service::new();
    let mut store = Store::new();
    service.handle(&mut store, Method::Post, "/users", ANN, "0.0.1");
    let second = "{\"name\":\"Anna\",\"email\":\"ann@x.com\",\"password\":\"other\"}";
    service.handle(&mut store, Method::Post, "/users", second, "0.0.1");
    let r = service.handle(&mut store, Method::Get, "/users/ann@x.com", "", "0.0.1");
    match &r.body {
        ResponseBody::Record(rec) => {
            assert_eq!(rec.name, "Anna");
            assert_eq!(rec.password, "other");
        },
        _ => panic!("expected the stored record"),
    }
}
