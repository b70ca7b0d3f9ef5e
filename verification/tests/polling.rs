//! The client's offset state machine, driven through poll response
//! bodies.

use telegram_bot::bot::Bot;
use telegram_bot::json::JsonVal;
use telegram_bot::proto::{Error, Update};

fn fresh_bot() -> Bot {
    Bot::new(String::from("123:ABC")).unwrap()
}

fn update(id: i64) -> Update {
    Update { update_id: id, payload: JsonVal::Null }
}

#[test]
fn a_new_bot_starts_at_offset_zero() {
    assert_eq!(fresh_bot().offset(), 0);
}

#[test]
fn a_malformed_token_is_a_config_error() {
    assert!(matches!(
        Bot::new(String::from("12/3")).unwrap_err(),
        Error::Config(_)
    ));
    assert!(matches!(
        Bot::new(String::from("")).unwrap_err(),
        Error::Config(_)
    ));
    assert!(matches!(
        Bot::new(String::from("a b")).unwrap_err(),
        Error::Config(_)
    ));
}

#[test]
fn the_bot_composes_its_method_urls() {
    let bot = fresh_bot();
    assert_eq!(
        bot.get_me_url(),
        "https://api.telegram.org/bot123:ABC/getMe"
    );
    assert_eq!(
        bot.get_updates_url(Some(4), None, Some(25)),
        "https://api.telegram.org/bot123:ABC/getUpdates?offset=4&timeout=25"
    );
}

#[test]
fn poll_timeout_defaults_to_thirty() {
    let bot = fresh_bot();
    assert_eq!(
        bot.poll_url(None),
        "https://api.telegram.org/bot123:ABC/getUpdates?offset=0&timeout=30"
    );
    assert_eq!(
        bot.poll_url(Some(5)),
        "https://api.telegram.org/bot123:ABC/getUpdates?offset=0&timeout=5"
    );
}

#[test]
fn offset_becomes_one_past_the_largest_identifier() {
    let mut bot = fresh_bot();
    let dispatched = bot.process_batch(vec![update(5), update(9), update(7)]);
    assert_eq!(bot.offset(), 10);
    let ids: Vec<i64> = dispatched.iter().map(|u| u.update_id).collect();
    assert_eq!(ids, vec![5, 9]);
}

#[test]
fn stale_updates_never_lower_the_offset() {
    let mut bot = fresh_bot();
    bot.process_batch(vec![update(11)]);
    assert_eq!(bot.offset(), 12);
    let dispatched = bot.process_batch(vec![update(3), update(5)]);
    assert_eq!(bot.offset(), 12);
    assert!(dispatched.is_empty());
}

#[test]
fn two_batch_poll_scenario() {
    let mut bot = fresh_bot();
    let body1 = "{\"ok\": true, \"result\": [{\"update_id\": 5}, {\"update_id\": 6}]}";
    let dispatched1 = bot.poll_step(body1).unwrap();
    let ids1: Vec<i64> = dispatched1.iter().map(|u| u.update_id).collect();
    assert_eq!(ids1, vec![5, 6]);
    assert_eq!(bot.offset(), 7);

    let body2 = "{\"ok\": true, \"result\": [{\"update_id\": 6}, {\"update_id\": 7}]}";
    let dispatched2 = bot.poll_step(body2).unwrap();
    let ids2: Vec<i64> = dispatched2.iter().map(|u| u.update_id).collect();
    assert_eq!(ids2, vec![7]);
    assert_eq!(bot.offset(), 8);
}

#[test]
fn a_failed_poll_leaves_the_offset_alone() {
    let mut bot = fresh_bot();
    bot.process_batch(vec![update(2)]);
    let err = bot.poll_step("{\"ok\": false, \"description\": \"gone\"}").unwrap_err();
    match err {
        Error::Api(desc) => assert_eq!(desc, "gone"),
        other => panic!("expected an API error, got {:?}", other),
    }
    assert_eq!(bot.offset(), 3);
    let err2 = bot.poll_step("garbage").unwrap_err();
    assert!(matches!(err2, Error::Json(_)));
    assert_eq!(bot.offset(), 3);
}

#[test]
fn update_payload_is_kept() {
    let mut bot = fresh_bot();
    let body = "{\"ok\": true, \"result\": [{\"update_id\": 1, \"message\": \"hi\"}]}";
    let dispatched = bot.poll_step(body).unwrap();
    assert_eq!(dispatched.len(), 1);
    match &dispatched[0].payload {
        JsonVal::Obj(fields) => {
            assert!(fields.iter().any(|(k, v)| {
                k == "message" && matches!(v, JsonVal::Str(s) if s == "hi")
            }));
        },
        other => panic!("expected the record object, got {:?}", other),
    }
}

#[test]
fn the_cursor_can_reach_its_ceiling_and_stay() {
    let mut bot = fresh_bot();
    bot.process_batch(vec![update(i64::MAX - 1)]);
    assert_eq!(bot.offset(), i64::MAX);
    let dispatched = bot.process_batch(vec![update(3)]);
    assert!(dispatched.is_empty());
    assert_eq!(bot.offset(), i64::MAX);
}
