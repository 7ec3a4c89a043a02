use user_service::user::{
    create_finish, create_plan, create_user, decode_create, fetch_finish, fetch_user, GetOutcome,
    PublicView, Store,
};
use user_service::ApiError;

const ANN: &str = "{\"name\":\"Ann\",\"email\":\"ann@x.com\",\"password\":\"secret\"}";

#[test]
fn decode_reads_all_three_fields() {
    let req = decode_create(ANN).unwrap();
    assert_eq!(req.name, "Ann");
    assert_eq!(req.email, "ann@x.com");
    assert_eq!(req.password, "secret");
}

#[test]
fn decode_rejects_missing_email() {
    assert!(decode_create("{\"name\":\"Ann\",\"password\":\"secret\"}").is_none());
}

#[test]
fn decode_rejects_malformed_body() {
    assert!(decode_create("not json at all").is_none());
    assert!(decode_create("[1, 2, 3]").is_none());
    assert!(decode_create("{\"name\":7,\"email\":\"e\",\"password\":\"p\"}").is_none());
}

#[test]
fn create_then_fetch_round_trips() {
    let mut store = Store::new();
    let view = create_user(&mut store, ANN).unwrap();
    assert_eq!(view.name, "Ann");
    assert_eq!(view.email, "ann@x.com");
    // the create response carries name and email only; no field of it holds
    // the password
    assert_ne!(view.name, "secret");
    assert_ne!(view.email, "secret");
    let id = "ann@x.com".to_string();
    let rec = fetch_user(&store, Some(&id)).unwrap();
    assert_eq!(rec.name, "Ann");
    assert_eq!(rec.email, "ann@x.com");
    assert_eq!(rec.password, "secret");
}

#[test]
fn second_create_overwrites_first() {
    let mut store = Store::new();
    create_user(&mut store, ANN).unwrap();
    let second = "{\"name\":\"Anna\",\"email\":\"ann@x.com\",\"password\":\"other\"}";
    create_user(&mut store, second).unwrap();
    let id = "ann@x.com".to_string();
    let rec = fetch_user(&store, Some(&id)).unwrap();
    assert_eq!(rec.name, "Anna");
    assert_eq!(rec.password, "other");
}

#[test]
fn fetch_of_key_never_created_is_not_found() {
    let store = Store::new();
    let id = "nobody@x.com".to_string();
    assert_eq!(fetch_user(&store, Some(&id)).unwrap_err(), ApiError::NotFound);
}

#[test]
fn fetch_without_id_is_bad_request() {
    let store = Store::new();
    assert_eq!(fetch_user(&store, None).unwrap_err(), ApiError::BadRequest);
}

#[test]
fn bad_body_is_refused_and_writes_nothing() {
    let mut store = Store::new();
    let bad = "{\"name\":\"Ann\",\"password\":\"secret\"}";
    assert_eq!(create_user(&mut store, bad).unwrap_err(), ApiError::BadRequest);
    // no half-created record is visible under any key afterwards
    for key in ["ann@x.com", "Ann", ""] {
        let id = key.to_string();
        assert_eq!(fetch_user(&store, Some(&id)).unwrap_err(), ApiError::NotFound);
    }
}

#[test]
fn plan_copies_fields_and_keys_by_email() {
    let plan = create_plan(ANN).unwrap();
    assert_eq!(plan.key, "ann@x.com");
    assert_eq!(plan.record.name, "Ann");
    assert_eq!(plan.record.email, "ann@x.com");
    assert_eq!(plan.record.password, "secret");
    assert_eq!(plan.response.name, "Ann");
    assert_eq!(plan.response.email, "ann@x.com");
}

#[test]
fn plan_refuses_bad_body() {
    assert_eq!(create_plan("{}").unwrap_err(), ApiError::BadRequest);
}

#[test]
fn finish_reports_write_outcome() {
    let response = PublicView { name: "Ann".to_string(), email: "ann@x.com".to_string() };
    let ok = create_finish(response, true).unwrap();
    assert_eq!(ok.name, "Ann");
    let response = PublicView { name: "Ann".to_string(), email: "ann@x.com".to_string() };
    assert_eq!(create_finish(response, false).unwrap_err(), ApiError::StorageError);
}

#[test]
fn fetch_finish_decodes_a_hit() {
    let rec = fetch_finish(GetOutcome::Found(ANN.to_string())).unwrap();
    assert_eq!(rec.name, "Ann");
    assert_eq!(rec.email, "ann@x.com");
    assert_eq!(rec.password, "secret");
}

#[test]
fn fetch_finish_maps_miss_and_failure() {
    assert_eq!(fetch_finish(GetOutcome::Absent).unwrap_err(), ApiError::NotFound);
    assert_eq!(fetch_finish(GetOutcome::Failed).unwrap_err(), ApiError::StorageError);
    let corrupt = GetOutcome::Found("{\"name\":\"Ann\"}".to_string());
    assert_eq!(fetch_finish(corrupt).unwrap_err(), ApiError::StorageError);
}
