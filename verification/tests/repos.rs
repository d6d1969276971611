//! The repository front ends: identifier normalization, the
//! contact-status store, the seen-at store with its merge rule, and
//! the search sanitizer.

use change_capture::entity_id::normalize_id;
use change_capture::sanitize_like;
use change_capture::seen_at::{ContactSeenAtError, ContactSeenAtJsonIn, ContactSeenAtRepo};
use change_capture::status::{
    render_status_json, ContactStatusError, ContactStatusJsonIn, ContactStatusJsonOut,
    ContactStatusRepo,
};

const ID_A: &str = "11111111-1111-1111-1111-111111111111";

#[test]
fn identifier_normalization() {
    assert_eq!(normalize_id(ID_A).as_deref(), Some(ID_A));
    // digits in either case, hyphenated or plain
    assert_eq!(
        normalize_id("ABCDEF00-1234-5678-9abc-DEF012345678").as_deref(),
        Some("abcdef00-1234-5678-9abc-def012345678")
    );
    assert_eq!(
        normalize_id("ABCDEF00123456789abcDEF012345678").as_deref(),
        Some("abcdef00-1234-5678-9abc-def012345678")
    );
    // normalization is idempotent: the canonical form maps to itself
    let canon = normalize_id("ABCDEF00123456789abcDEF012345678").unwrap();
    assert_eq!(normalize_id(&canon).as_deref(), Some(canon.as_str()));
    // rejected: wrong length, wrong hyphens, non-hex digits
    assert_eq!(normalize_id(""), None);
    assert_eq!(normalize_id("1111"), None);
    assert_eq!(normalize_id("11111111x1111-1111-1111-111111111111"), None);
    assert_eq!(normalize_id("g1111111-1111-1111-1111-111111111111"), None);
    assert_eq!(normalize_id("11111111-1111-1111-1111-11111111111"), None);
}

#[test]
fn status_upsert_and_listing() {
    let mut repo = ContactStatusRepo::new();
    let out = repo
        .add_status_json(&ContactStatusJsonIn { id: ID_A.to_string(), status: 1 })
        .expect("valid id");
    assert_eq!(out, format!(r#"{{"id":"{ID_A}","status":1}}"#));

    // a second write for the same contact updates in place
    let out = repo
        .add_status_json(&ContactStatusJsonIn { id: ID_A.to_string(), status: 7 })
        .expect("valid id");
    assert_eq!(out, format!(r#"{{"id":"{ID_A}","status":7}}"#));

    // another contact, written with upper-case digits, is stored
    // under its canonical spelling
    let out = repo
        .add_status_json(&ContactStatusJsonIn {
            id: "22222222-2222-2222-2222-22222222222A".to_string(),
            status: -3,
        })
        .expect("valid id");
    assert_eq!(out, r#"{"id":"22222222-2222-2222-2222-22222222222a","status":-3}"#);

    assert_eq!(
        repo.all_contacts_status_json(),
        format!(
            r#"[{{"id":"{ID_A}","status":7}},{{"id":"22222222-2222-2222-2222-22222222222a","status":-3}}]"#
        )
    );
}

#[test]
fn status_rejects_bad_identifier() {
    let mut repo = ContactStatusRepo::new();
    let err = repo
        .add_status_json(&ContactStatusJsonIn { id: "not-an-id".to_string(), status: 1 })
        .unwrap_err();
    match &err {
        ContactStatusError::InvalidUuid(u) => assert_eq!(u, "not-an-id"),
        other => panic!("expected InvalidUuid, got {other:?}"),
    }
    assert_eq!(err.message(), "Invalid UUID: not-an-id");
    assert_eq!(repo.all_contacts_status_json(), "[]");
}

#[test]
fn status_error_messages() {
    assert_eq!(ContactStatusError::Sql("boom".to_string()).message(), "SqlError: boom");
    assert_eq!(ContactStatusError::Json("eof".to_string()).message(), "JsonError: eof");
    assert_eq!(ContactStatusError::Other("x".to_string()).message(), "Other: x");
    assert_eq!(ContactSeenAtError::Sql("boom".to_string()).message(), "SqlError: boom");
    assert_eq!(ContactSeenAtError::Json("eof".to_string()).message(), "JsonError: eof");
    assert_eq!(ContactSeenAtError::InvalidUuid("u".to_string()).message(), "InvalidUUID: u");
    assert_eq!(ContactSeenAtError::Other("x".to_string()).message(), "Other: x");
}

#[test]
fn status_row_rendering() {
    let row = ContactStatusJsonOut { id: ID_A.to_string(), status: 0 };
    assert_eq!(render_status_json(&row), format!(r#"{{"id":"{ID_A}","status":0}}"#));
}

#[test]
fn test_contact_seen_at_repo() {
    let mut repo = ContactSeenAtRepo::new();

    let input = ContactSeenAtJsonIn {
        id: ID_A.to_string(),
        date: Some(vec![
            ("some-user".to_string(), "167889999.0".to_string()),
            ("other-user".to_string(), "1234.567".to_string()),
        ]),
    };
    let out1 = repo.add_seen_json(&input).expect("first add");
    println!("add_seen_json -> {out1}");
    assert_eq!(
        out1,
        format!(r#"{{"id":"{ID_A}","date":{{"some-user":167889999.0,"other-user":1234.567}}}}"#)
    );

    // a second sighting merges: the new time wins for a common user,
    // unmentioned users keep their stored time
    let input2 = ContactSeenAtJsonIn {
        id: ID_A.to_string(),
        date: Some(vec![
            ("some-user".to_string(), "9999.0".to_string()),
            ("new-user".to_string(), "5555.0".to_string()),
        ]),
    };
    let out2 = repo.add_seen_json(&input2).expect("second add");
    println!("add_seen_json (second) -> {out2}");
    assert_eq!(
        out2,
        format!(
            r#"{{"id":"{ID_A}","date":{{"some-user":9999.0,"new-user":5555.0,"other-user":1234.567}}}}"#
        )
    );

    let out3 = repo.all_seen_json();
    println!("all_seen_json -> {out3}");
    assert_eq!(out3, format!("[{out2}]"));
}

#[test]
fn seen_at_without_dates() {
    let mut repo = ContactSeenAtRepo::new();
    let out = repo
        .add_seen_json(&ContactSeenAtJsonIn { id: ID_A.to_string(), date: None })
        .expect("valid id");
    assert_eq!(out, format!(r#"{{"id":"{ID_A}","date":null}}"#));

    // a dateless sighting of a stored contact leaves its map as it is
    let with_dates = ContactSeenAtJsonIn {
        id: ID_A.to_string(),
        date: Some(vec![("u".to_string(), "1.0".to_string())]),
    };
    repo.add_seen_json(&with_dates).expect("valid id");
    let out = repo
        .add_seen_json(&ContactSeenAtJsonIn { id: ID_A.to_string(), date: None })
        .expect("valid id");
    assert_eq!(out, format!(r#"{{"id":"{ID_A}","date":{{"u":1.0}}}}"#));
}

#[test]
fn seen_at_rejects_bad_identifier() {
    let mut repo = ContactSeenAtRepo::new();
    let err = repo
        .add_seen_json(&ContactSeenAtJsonIn { id: "nope".to_string(), date: None })
        .unwrap_err();
    match &err {
        ContactSeenAtError::InvalidUuid(u) => assert_eq!(u, "nope"),
        other => panic!("expected InvalidUuid, got {other:?}"),
    }
    assert_eq!(repo.all_seen_json(), "[]");
}

#[test]
fn sanitize_like_escapes_wildcards() {
    assert_eq!(sanitize_like("a%b"), "a\\%b");
    assert_eq!(sanitize_like("a_b"), "a\\_b");
    assert_eq!(sanitize_like("%_%"), "\\%\\_\\%");
    assert_eq!(sanitize_like("plain"), "plain");
    assert_eq!(sanitize_like(""), "");
}
