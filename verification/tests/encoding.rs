//! Parameter encoding and endpoint composition.

use telegram_bot::digits::i64_to_string;
use telegram_bot::endpoint::{build_query, compose_url, encode_component};
use telegram_bot::params::Params;

#[test]
fn it_works() {
}

#[test]
fn integer_rendering_is_exact() {
    assert_eq!(i64_to_string(0), "0");
    assert_eq!(i64_to_string(42), "42");
    assert_eq!(i64_to_string(-7), "-7");
    assert_eq!(i64_to_string(1000), "1000");
    assert_eq!(i64_to_string(i64::MAX), "9223372036854775807");
    assert_eq!(i64_to_string(i64::MIN), "-9223372036854775808");
}

#[test]
fn params_keep_present_values_in_order() {
    let mut p = Params::new();
    p.add_get_opt("offset", Some(42));
    p.add_get_opt("limit", None);
    p.add_get_opt("timeout", Some(-7));
    let pairs = p.get_params();
    assert_eq!(pairs.len(), 2);
    assert_eq!(pairs[0].0, "offset");
    assert_eq!(pairs[0].1, "42");
    assert_eq!(pairs[1].0, "timeout");
    assert_eq!(pairs[1].1, "-7");
}

#[test]
fn empty_params_encode_to_nothing() {
    let p = Params::new();
    assert_eq!(p.len(), 0);
    assert_eq!(build_query(&p), "");
}

#[test]
fn unreserved_text_stays_as_it_is() {
    assert_eq!(encode_component("getUpdates"), "getUpdates");
    assert_eq!(encode_component("abc-XYZ_0.9~"), "abc-XYZ_0.9~");
}

#[test]
fn reserved_and_non_ascii_text_is_escaped() {
    assert_eq!(encode_component("a b"), "a%20b");
    assert_eq!(encode_component("1+2=3"), "1%2B2%3D3");
    assert_eq!(encode_component("\u{00fc}"), "%C3%BC");
    assert_eq!(encode_component("\u{20ac}"), "%E2%82%AC");
    assert_eq!(encode_component("\u{1f600}"), "%F0%9F%98%80");
}

#[test]
fn query_joins_encoded_pairs() {
    let mut p = Params::new();
    p.add_get("text", String::from("a b"));
    p.add_get_opt("offset", Some(5));
    assert_eq!(build_query(&p), "text=a%20b&offset=5");
}

#[test]
fn method_replaces_final_path_segment() {
    let p = Params::new();
    let url = compose_url("https://api.example.org/bot123:ABC/dummy", "getMe", &p);
    assert_eq!(url, "https://api.example.org/bot123:ABC/getMe");
}

#[test]
fn query_is_appended_after_the_method() {
    let mut p = Params::new();
    p.add_get_opt("offset", Some(7));
    p.add_get_opt("timeout", Some(30));
    let url = compose_url("https://api.example.org/bot123:ABC/dummy", "getUpdates", &p);
    assert_eq!(
        url,
        "https://api.example.org/bot123:ABC/getUpdates?offset=7&timeout=30"
    );
}

#[test]
fn base_without_path_is_left_unmodified() {
    let p = Params::new();
    let url = compose_url("https://api.example.org", "getMe", &p);
    assert_eq!(url, "https://api.example.org");
    let mut q = Params::new();
    q.add_get_opt("offset", Some(1));
    let url2 = compose_url("https://api.example.org", "getMe", &q);
    assert_eq!(url2, "https://api.example.org?offset=1");
}
