use salvo_core::http::{HeaderMap, HeaderValue};
use tus_handlers::common::{
    apply_common_headers, apply_cors_headers, apply_options_headers, check_tus_version,
    check_tus_version_or_respond, enter, extend_list, parse_content_length, Reply, TusOptions,
    EXPOSE_HEADERS,
};
use tus_handlers::error::{InternalError, ProtocolError, Status, TusError};
use tus_handlers::finish::{
    apply_upload_finish_hook, merge_headers, outcome_fits, BodyOutcome, FinishPatch,
};
use tus_handlers::headers::{is_printable, room, MAX_FIELD_NAMES};
use tus_handlers::options::options;

fn fields(list: &[(&'static str, &str)]) -> HeaderMap {
    let mut map = HeaderMap::new();
    for (name, value) in list {
        map.insert(*name, HeaderValue::from_bytes(value.as_bytes()).expect("value"));
    }
    map
}

fn reply() -> Reply {
    Reply { status_code: None, headers: HeaderMap::new() }
}

fn strings(list: &[&str]) -> Vec<String> {
    list.iter().map(|s| s.to_string()).collect()
}

#[test]
fn open_server_answers_a_star() {
    let mut map = HeaderMap::new();
    apply_cors_headers(&mut map, &fields(&[("origin", "https://a.example")]), &TusOptions::default());
    assert_eq!(map["access-control-allow-origin"], "*");
    assert_eq!(map["access-control-expose-headers"], EXPOSE_HEADERS);
    assert!(!map.contains_key("access-control-allow-credentials"));
    assert_eq!(map.len(), 2);
}

#[test]
fn credentials_exclude_the_star() {
    let opts = TusOptions { allowed_credentials: true, ..TusOptions::default() };
    let mut map = HeaderMap::new();
    apply_cors_headers(&mut map, &fields(&[("origin", "https://a.example")]), &opts);
    assert_eq!(map["access-control-allow-origin"], "https://a.example");
    assert_eq!(map["access-control-allow-credentials"], "true");
    let mut without = HeaderMap::new();
    apply_cors_headers(&mut without, &HeaderMap::new(), &opts);
    assert!(!without.contains_key("access-control-allow-origin"));
    assert_eq!(without["access-control-allow-credentials"], "true");
}

#[test]
fn only_allowed_origins_are_named() {
    let opts = TusOptions {
        allowed_origins: strings(&["https://a.example", "https://b.example"]),
        ..TusOptions::default()
    };
    let mut known = HeaderMap::new();
    apply_cors_headers(&mut known, &fields(&[("origin", "https://b.example")]), &opts);
    assert_eq!(known["access-control-allow-origin"], "https://b.example");
    let mut other = HeaderMap::new();
    apply_cors_headers(&mut other, &fields(&[("origin", "https://c.example")]), &opts);
    assert!(!other.contains_key("access-control-allow-origin"));
    let mut strange = HeaderMap::new();
    apply_cors_headers(&mut strange, &fields(&[("origin", "\u{fc}")]), &opts);
    assert!(!strange.contains_key("access-control-allow-origin"));
}

#[test]
fn further_fields_are_exposed() {
    let opts = TusOptions { exposed_headers: strings(&["X-One", "X-Two"]), ..TusOptions::default() };
    let mut map = HeaderMap::new();
    apply_cors_headers(&mut map, &HeaderMap::new(), &opts);
    assert_eq!(
        map["access-control-expose-headers"],
        format!("{}, X-One, X-Two", EXPOSE_HEADERS).as_str()
    );
    let bad = TusOptions { exposed_headers: strings(&["X\n"]), ..TusOptions::default() };
    let mut none = HeaderMap::new();
    apply_cors_headers(&mut none, &HeaderMap::new(), &bad);
    assert!(!none.contains_key("access-control-expose-headers"));
}

#[test]
fn lists_are_extended() {
    assert_eq!(extend_list("A", &vec![]), "A");
    assert_eq!(extend_list("A", &strings(&["B", "C"])), "A, B, C");
}

#[test]
fn every_reply_has_common_fields() {
    let mut map = HeaderMap::new();
    apply_common_headers(&mut map, &HeaderMap::new(), &TusOptions::default());
    assert_eq!(map["tus-resumable"], "1.0.0");
    assert_eq!(map["cache-control"], "no-store");
    assert_eq!(map["access-control-allow-origin"], "*");
    let mut other = HeaderMap::new();
    apply_options_headers(&mut other, &HeaderMap::new(), &TusOptions::default());
    assert!(!other.contains_key("tus-resumable"));
    assert_eq!(other["cache-control"], "no-store");
}

#[test]
fn versions_are_checked() {
    assert_eq!(check_tus_version(Some("1.0.0")), Ok(()));
    assert_eq!(
        check_tus_version(Some("0.2.2")),
        Err(ProtocolError::UnsupportedTusVersion("0.2.2".to_string()))
    );
    assert_eq!(
        check_tus_version(None),
        Err(ProtocolError::MissingHeader("tus-resumable"))
    );
}

#[test]
fn other_versions_are_told_the_spoken_one() {
    let mut other = reply();
    assert!(!check_tus_version_or_respond(&fields(&[("tus-resumable", "2.0.0")]), &mut other));
    assert_eq!(other.headers["tus-version"], "1.0.0");
    assert_eq!(
        other.status_code,
        Some(Status::Failure(TusError::Protocol(ProtocolError::UnsupportedTusVersion(
            "2.0.0".to_string()
        ))))
    );
    let mut missing = reply();
    assert!(!check_tus_version_or_respond(&HeaderMap::new(), &mut missing));
    assert!(missing.headers.is_empty());
    assert_eq!(
        missing.status_code,
        Some(Status::Failure(TusError::Protocol(ProtocolError::MissingHeader("tus-resumable"))))
    );
    let mut right = reply();
    assert!(check_tus_version_or_respond(&fields(&[("tus-resumable", "1.0.0")]), &mut right));
    assert_eq!(right.status_code, None);
    assert!(right.headers.is_empty());
}

#[test]
fn first_checks_come_in_order() {
    let good = fields(&[("tus-resumable", "1.0.0")]);
    let opts = TusOptions::default();
    let mut ok = reply();
    assert!(enter(&good, &opts, None, Ok(()), &mut ok));
    assert_eq!(ok.status_code, None);
    let mut barred = reply();
    assert!(!enter(&good, &opts, Some(TusError::InvalidOffset), Err(404), &mut barred));
    assert_eq!(barred.status_code, Some(Status::Failure(TusError::InvalidOffset)));
    let mut lost = reply();
    assert!(!enter(&good, &opts, None, Err(404), &mut lost));
    assert_eq!(lost.status_code, Some(Status::Code(404)));
    let mut old = reply();
    assert!(!enter(&HeaderMap::new(), &opts, Some(TusError::InvalidOffset), Err(404), &mut old));
    assert_eq!(
        old.status_code,
        Some(Status::Failure(TusError::Protocol(ProtocolError::MissingHeader("tus-resumable"))))
    );
    assert_eq!(old.headers["cache-control"], "no-store");
}

#[test]
fn lengths_of_bodies_are_read() {
    assert_eq!(parse_content_length(&HeaderMap::new()), Ok(None));
    assert_eq!(parse_content_length(&fields(&[("content-length", "12")])), Ok(Some(12)));
    for bad in ["x", "\u{fc}", ""] {
        assert_eq!(
            parse_content_length(&fields(&[("content-length", bad)])),
            Err(TusError::Protocol(ProtocolError::InvalidInt("content-length")))
        );
    }
}

#[test]
fn first_value_of_a_field_counts() {
    let mut req = fields(&[("content-length", "1")]);
    req.append("content-length", HeaderValue::from_static("2"));
    assert_eq!(parse_content_length(&req), Ok(Some(1)));
}

#[test]
fn room_is_counted_in_names() {
    let mut map = fields(&[("a", "1"), ("b", "2")]);
    map.append("a", HeaderValue::from_static("3"));
    assert!(room(&map, MAX_FIELD_NAMES - 2));
    assert!(!room(&map, MAX_FIELD_NAMES - 1));
}

#[test]
fn maps_take_the_promised_number_of_names() {
    let mut map = HeaderMap::new();
    for i in 0..MAX_FIELD_NAMES {
        assert!(room(&map, 1));
        let name = salvo_core::http::header::HeaderName::from_bytes(format!("x-{}", i).as_bytes());
        map.insert(name.expect("name"), HeaderValue::from_static("v"));
    }
    assert!(!room(&map, 1));
}

#[test]
fn printable_texts() {
    assert!(is_printable("a b\t\u{fc}"));
    assert!(!is_printable("a\nb"));
    assert!(!is_printable("\u{7f}"));
}

#[test]
fn hook_fields_do_not_replace_those_of_the_reply() {
    let mut map = fields(&[("a", "1")]);
    let mut extra = fields(&[("a", "2"), ("b", "3")]);
    extra.append("b", HeaderValue::from_static("4"));
    merge_headers(&mut map, extra);
    assert_eq!(map["a"], "1");
    assert_eq!(map.get_all("b").iter().count(), 1);
    assert_eq!(map["b"], "3");
    assert_eq!(map.len(), 2);
}

#[test]
fn hook_changes_the_reply() {
    let mut done = Reply { status_code: Some(Status::Code(204)), headers: fields(&[("a", "1")]) };
    apply_upload_finish_hook(
        Ok(FinishPatch {
            status_code: Some(201),
            body: BodyOutcome::Written,
            headers: Some(fields(&[("b", "2")])),
        }),
        &mut done,
    );
    assert_eq!(done.status_code, Some(Status::Code(201)));
    assert_eq!(done.headers["b"], "2");
    apply_upload_finish_hook(
        Ok(FinishPatch { status_code: None, body: BodyOutcome::Absent, headers: None }),
        &mut done,
    );
    assert_eq!(done.status_code, Some(Status::Code(201)));
    assert_eq!(done.headers.len(), 2);
}

#[test]
fn hook_that_fails() {
    let mut broken = Reply { status_code: Some(Status::Code(204)), headers: HeaderMap::new() };
    apply_upload_finish_hook(
        Ok(FinishPatch {
            status_code: Some(201),
            body: BodyOutcome::Failed,
            headers: Some(fields(&[("b", "2")])),
        }),
        &mut broken,
    );
    assert_eq!(
        broken.status_code,
        Some(Status::Failure(TusError::Internal(InternalError::ResponseBody)))
    );
    assert!(broken.headers.is_empty());
    let mut refused = Reply { status_code: Some(Status::Code(204)), headers: HeaderMap::new() };
    apply_upload_finish_hook(Err(500), &mut refused);
    assert_eq!(refused.status_code, Some(Status::Code(500)));
}

#[test]
fn abilities_are_told() {
    let mut told = reply();
    options(
        Some(HeaderValue::from_static("creation,expiration")),
        1024,
        &HeaderMap::new(),
        &TusOptions { allowed_headers: strings(&["X-Token"]), ..TusOptions::default() },
        &mut told,
    );
    assert_eq!(told.status_code, Some(Status::Code(204)));
    assert_eq!(told.headers["tus-version"], "1.0.0");
    assert_eq!(told.headers["tus-extension"], "creation,expiration");
    assert_eq!(told.headers["tus-max-size"], "1024");
    assert_eq!(
        told.headers["access-control-allow-methods"],
        "OPTIONS, POST, HEAD, PATCH, DELETE, GET"
    );
    assert_eq!(
        told.headers["access-control-allow-headers"],
        "Tus-Resumable, Upload-Length, Upload-Offset, Upload-Metadata, Content-Type, Content-Length, X-Token"
    );
    assert_eq!(told.headers["access-control-max-age"], "86400");
    assert_eq!(told.headers["cache-control"], "no-store");
    assert!(!told.headers.contains_key("tus-resumable"));
}

#[test]
fn fields_that_are_asked_for_are_allowed() {
    let mut told = reply();
    options(
        None,
        0,
        &fields(&[("access-control-request-headers", "x-a, x-b")]),
        &TusOptions { allowed_headers: strings(&["X-Token"]), ..TusOptions::default() },
        &mut told,
    );
    assert_eq!(told.headers["access-control-allow-headers"], "x-a, x-b");
    assert!(!told.headers.contains_key("tus-max-size"));
    assert!(!told.headers.contains_key("tus-extension"));
}

#[test]
fn fields_of_the_hook_must_fit() {
    let mut full = HeaderMap::new();
    for i in 0..MAX_FIELD_NAMES - 1 {
        let name = salvo_core::http::header::HeaderName::from_bytes(format!("x-{}", i).as_bytes());
        full.insert(name.expect("name"), HeaderValue::from_static("v"));
    }
    let outcome = |names: &[(&'static str, &str)], body: BodyOutcome| {
        Ok(FinishPatch { status_code: None, body, headers: Some(fields(names)) })
    };
    assert!(outcome_fits(&full, &outcome(&[("a", "1")], BodyOutcome::Absent)));
    assert!(!outcome_fits(&full, &outcome(&[("a", "1"), ("b", "2")], BodyOutcome::Absent)));
    assert!(outcome_fits(&full, &outcome(&[("a", "1"), ("b", "2")], BodyOutcome::Failed)));
    assert!(outcome_fits(&full, &Err(500)));
}

#[test]
fn second_answer_changes_nothing() {
    let opts = TusOptions { allowed_credentials: true, ..TusOptions::default() };
    let req = fields(&[("origin", "https://a.example")]);
    let mut map = fields(&[("x-kept", "1")]);
    map.append("access-control-allow-origin", HeaderValue::from_static("a"));
    map.append("access-control-allow-origin", HeaderValue::from_static("b"));
    apply_cors_headers(&mut map, &req, &opts);
    let once = map.clone();
    apply_cors_headers(&mut map, &req, &opts);
    assert_eq!(map, once);
    assert_eq!(map.get_all("access-control-allow-origin").iter().count(), 1);
    assert_eq!(map["access-control-allow-origin"], "https://a.example");
    assert_eq!(map["x-kept"], "1");
}

#[test]
fn replies_differ_by_the_version_alone() {
    let before = fields(&[("x-kept", "1"), ("tus-resumable", "0.1")]);
    let opts = TusOptions::default();
    let mut common = before.clone();
    apply_common_headers(&mut common, &HeaderMap::new(), &opts);
    let mut other = before.clone();
    apply_options_headers(&mut other, &HeaderMap::new(), &opts);
    assert_eq!(common["tus-resumable"], "1.0.0");
    assert_eq!(other["tus-resumable"], "0.1");
    assert_eq!(common["x-kept"], "1");
    common.remove("tus-resumable");
    other.remove("tus-resumable");
    assert_eq!(common, other);
}
