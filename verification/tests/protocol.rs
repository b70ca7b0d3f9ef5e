//! Envelope classification and payload decoding, through the real JSON
//! parser.

use telegram_bot::proto::{
    decode_response, decode_updates_response, decode_user_response, Error, Method, Payload,
};

#[test]
fn success_with_result_yields_the_payload() {
    let user = decode_user_response("{\"ok\": true, \"result\": {\"id\": 1}}").unwrap();
    assert_eq!(user.id, 1);
    assert!(user.first_name.is_none());
}

#[test]
fn user_fields_are_decoded() {
    let body = "{\"ok\": true, \"result\": {\"id\": -3, \"first_name\": \"Ada\"}}";
    let user = decode_user_response(body).unwrap();
    assert_eq!(user.id, -3);
    assert_eq!(user.first_name.as_deref(), Some("Ada"));
}

#[test]
fn reported_failure_yields_an_api_error() {
    let err = decode_user_response("{\"ok\": false, \"description\": \"Unauthorized\"}")
        .unwrap_err();
    match err {
        Error::Api(desc) => assert_eq!(desc, "Unauthorized"),
        other => panic!("expected an API error, got {:?}", other),
    }
}

#[test]
fn failure_without_description_is_an_invalid_state() {
    let err = decode_user_response("{\"ok\": false}").unwrap_err();
    match err {
        Error::InvalidState(msg) => assert_eq!(msg, "Invalid server response"),
        other => panic!("expected an invalid-state error, got {:?}", other),
    }
}

#[test]
fn success_without_result_is_an_invalid_state() {
    let err = decode_user_response("{\"ok\": true}").unwrap_err();
    match err {
        Error::InvalidState(msg) => assert_eq!(msg, "Invalid server response"),
        other => panic!("expected an invalid-state error, got {:?}", other),
    }
}

#[test]
fn malformed_body_is_a_decode_error() {
    let err = decode_user_response("not json").unwrap_err();
    assert!(matches!(err, Error::Json(_)));
}

#[test]
fn envelope_without_boolean_ok_is_a_decode_error() {
    assert!(matches!(
        decode_user_response("{\"result\": {\"id\": 1}}").unwrap_err(),
        Error::Json(_)
    ));
    assert!(matches!(
        decode_user_response("{\"ok\": 1, \"result\": {\"id\": 1}}").unwrap_err(),
        Error::Json(_)
    ));
    assert!(matches!(
        decode_user_response("[1, 2]").unwrap_err(),
        Error::Json(_)
    ));
}

#[test]
fn update_batch_is_decoded_in_order() {
    let body = "{\"ok\": true, \"result\": [{\"update_id\": 5}, {\"update_id\": 6}]}";
    let updates = decode_updates_response(body).unwrap();
    assert_eq!(updates.len(), 2);
    assert_eq!(updates[0].update_id, 5);
    assert_eq!(updates[1].update_id, 6);
}

#[test]
fn empty_update_batch_is_fine() {
    let updates = decode_updates_response("{\"ok\": true, \"result\": []}").unwrap();
    assert!(updates.is_empty());
}

#[test]
fn non_array_updates_result_is_a_decode_error() {
    let err = decode_updates_response("{\"ok\": true, \"result\": {\"update_id\": 5}}")
        .unwrap_err();
    assert!(matches!(err, Error::Json(_)));
}

#[test]
fn update_without_identifier_is_a_decode_error() {
    let body = "{\"ok\": true, \"result\": [{\"update_id\": 5}, {\"id\": 6}]}";
    assert!(matches!(
        decode_updates_response(body).unwrap_err(),
        Error::Json(_)
    ));
}

#[test]
fn decode_is_keyed_by_method() {
    let body = "{\"ok\": true, \"result\": [{\"update_id\": 9}]}";
    match decode_response(Method::GetUpdates, body).unwrap() {
        Payload::Updates(us) => assert_eq!(us[0].update_id, 9),
        Payload::User(_) => panic!("expected an update batch"),
    }
    match decode_response(Method::GetMe, "{\"ok\": true, \"result\": {\"id\": 4}}").unwrap() {
        Payload::User(u) => assert_eq!(u.id, 4),
        Payload::Updates(_) => panic!("expected a user record"),
    }
}

#[test]
fn error_description_carries_the_text() {
    assert_eq!(Error::Api(String::from("boom")).description(), "boom");
    assert_eq!(
        Error::Config(String::from("bad token")).description(),
        "bad token"
    );
    assert_eq!(Error::Http(String::from("refused")).description(), "refused");
    assert_eq!(Error::Io(String::from("closed")).description(), "closed");
}

#[test]
fn identifier_at_the_cursor_ceiling_is_rejected() {
    let body = "{\"ok\": true, \"result\": [{\"update_id\": 9223372036854775807}]}";
    assert!(matches!(
        decode_updates_response(body).unwrap_err(),
        Error::Json(_)
    ));
    let body2 = "{\"ok\": true, \"result\": [{\"update_id\": 9223372036854775806}]}";
    assert_eq!(decode_updates_response(body2).unwrap()[0].update_id, 9223372036854775806);
}

#[test]
fn fractional_identifier_is_rejected() {
    let body = "{\"ok\": true, \"result\": [{\"update_id\": 1.5}]}";
    assert!(matches!(
        decode_updates_response(body).unwrap_err(),
        Error::Json(_)
    ));
}

#[test]
fn non_string_description_is_a_decode_error() {
    let err = decode_user_response("{\"ok\": false, \"description\": 5}").unwrap_err();
    assert!(matches!(err, Error::Json(_)));
}

#[test]
fn negative_identifiers_are_accepted() {
    let body = "{\"ok\": true, \"result\": [{\"update_id\": -4}]}";
    assert_eq!(decode_updates_response(body).unwrap()[0].update_id, -4);
}
