use agent_hub::digest::{constant_time_eq, hex, sha256_hex};
use agent_hub::error::{refuse, ApiError, Status};
use agent_hub::ids::{id_text, new_secret, parse_id, secret_of};
use agent_hub::json::{copy_json, json_equal, Json, JsonNumber};
use agent_hub::numeral::{decimal_text, parse_digits, parse_i64, parse_u32};
use agent_hub::order::{contains, insert, text_less};
use agent_hub::text;

fn number(integer: Option<i64>, numeral: &str) -> Json {
    Json::Number(JsonNumber { integer, numeral: numeral.to_string() })
}

#[test]
fn text_is_trimmed_split_and_searched() {
    assert_eq!(text::trim(" \u{3000}\ta b\u{85}"), "a b");
    assert_eq!(text::trim("\u{200b}x"), "\u{200b}x");
    assert_eq!(text::lowercase("ÀBc"), "Àbc");
    assert!(text::same_ignoring_case("For", "fOR"));
    assert_eq!(text::byte_len("é€"), 5);
    assert_eq!(text::char_count("é€"), 2);
    assert_eq!(text::split_once("a=b=c", '='), Some(("a".to_string(), "b=c".to_string())));
    assert_eq!(text::split_once("abc", '='), None);
    assert_eq!(text::split("a..b", '.'), vec!["a", "", "b"]);
    assert_eq!(text::split("", '.'), vec![""]);
    assert_eq!(text::split_whitespace(" a \u{2003} b\n"), vec!["a", "b"]);
    assert_eq!(text::split_words("a\u{2003}b c\u{b}d", true), vec!["a\u{2003}b", "c\u{b}d"]);
    assert!(text::starts_with("https://x", "https://"));
    assert_eq!(text::strip_prefix("agent:1", "agent:"), Some("1".to_string()));
    assert_eq!(text::strip_prefix("agent", "agent:"), None);
    assert_eq!(text::trim_end_char("a//", '/'), "a");
    assert_eq!(text::count_text("aaa", "aa"), 1);
    assert_eq!(text::count_text("{email}{email}", "{email}"), 2);
    assert_eq!(text::replace_first("x{e}y{e}", "{e}", "-"), "x-y{e}");
    assert!(text::any_control("a\u{7f}"));
    assert!(!text::any_control("a\u{a0}"));
    assert!(text::any_space("a\u{a0}"));
    assert!(text::is_blank("\u{2028}\r\n"));
}

#[test]
fn numerals_are_read_within_their_range() {
    assert_eq!(parse_i64("-9223372036854775808"), Some(i64::MIN));
    assert_eq!(parse_i64("9223372036854775807"), Some(i64::MAX));
    assert_eq!(parse_i64("9223372036854775808"), None);
    assert_eq!(parse_i64("-9223372036854775809"), None);
    assert_eq!(parse_i64("+0007"), Some(7));
    assert_eq!(parse_i64("-"), None);
    assert_eq!(parse_i64(""), None);
    assert_eq!(parse_i64("1 "), None);
    assert_eq!(parse_i64("99999999999999999999999999"), None);
    assert_eq!(parse_u32("+4294967295"), Some(u32::MAX));
    assert_eq!(parse_u32("4294967296"), None);
    assert_eq!(parse_u32("-0"), None);
    assert_eq!(parse_digits("012"), Some(12));
    assert_eq!(parse_digits("+1"), None);
    assert_eq!(decimal_text(0), "0");
    assert_eq!(decimal_text(18446744073709551615), "18446744073709551615");
    for n in [0u64, 9, 10, 99, 100, 4096] {
        assert_eq!(parse_digits(&decimal_text(n)), Some(n));
    }
}

#[test]
fn texts_are_ordered_by_code_points() {
    assert!(text_less("", "a"));
    assert!(text_less("Z", "a"));
    assert!(text_less("a", "ab"));
    assert!(!text_less("b", "ab"));
    assert!(!text_less("a", "a"));
    let mut set = Vec::new();
    for word in ["b", "a", "c", "a", ""] {
        insert(&mut set, word.to_string());
    }
    assert_eq!(set, vec!["", "a", "b", "c"]);
    assert!(!insert(&mut set, "b".to_string()));
    assert!(contains(&set, "c"));
    assert!(!contains(&set, "d"));
}

#[test]
fn api_key_hash_is_stable_and_not_plaintext() {
    let token = "ahk_test_token";
    let hash = sha256_hex(token);
    assert_eq!(hash, sha256_hex(token));
    assert_ne!(hash, token);
    assert_eq!(
        sha256_hex("abc"),
        "ba7816bf8f01cfea414140de5dae2223b00361a396177a9cb410ff61f20015ad"
    );
}

#[test]
fn bytes_are_compared_and_shown() {
    assert_eq!(hex(&vec![0, 15, 255]), "000fff");
    assert!(constant_time_eq(b"abc", b"abc"));
    assert!(!constant_time_eq(b"abc", b"abd"));
    assert!(!constant_time_eq(b"abc", b"ab"));
    assert!(constant_time_eq(b"", b""));
}

#[test]
fn identifiers_are_spelled_and_read_back() {
    let id = 0x550e8400_e29b_41d4_a716_446655440000u128;
    assert_eq!(id_text(id), "550e8400-e29b-41d4-a716-446655440000");
    assert_eq!(parse_id("550e8400-e29b-41d4-a716-446655440000"), Some(id));
    assert_eq!(parse_id("550E8400E29B41D4A716446655440000"), Some(id));
    assert_eq!(parse_id("550e8400"), None);
    assert_eq!(
        secret_of("ahk_", 1, id),
        "ahk_00000000000000000000000000000001550e8400e29b41d4a716446655440000"
    );
    let first = new_secret("ahs_");
    let second = new_secret("ahs_");
    assert!(first.starts_with("ahs_"));
    assert_eq!(first.len(), 68);
    assert_ne!(first, second);
}

#[test]
fn values_are_copied_and_compared() {
    let value = Json::Object(vec![
        ("a".to_string(), Json::List(vec![Json::Null, number(Some(1), "1")])),
        ("b".to_string(), Json::Text("x".to_string())),
    ]);
    assert!(json_equal(&value, &copy_json(&value)));
    assert!(!json_equal(&number(Some(1), "1"), &number(None, "1.0")));
    assert!(json_equal(&number(None, "0.0"), &number(None, "-0.0")));
    assert!(!json_equal(&Json::Null, &Json::Bool(false)));
    assert_eq!(value.text_field("b"), Some("x"));
    assert_eq!(value.text_field("a"), None);
    assert!(value.get("c").is_none());
    assert!(value.is_object());
    assert_eq!(number(Some(7), "7").as_i64(), Some(7));
}

#[test]
fn refusals_carry_their_status() {
    for (error, code) in [
        (ApiError::bad_request("m"), 400),
        (ApiError::unauthorized("m"), 401),
        (ApiError::forbidden("m"), 403),
        (ApiError::not_found("m"), 404),
        (ApiError::conflict("m"), 409),
        (ApiError::gone("m"), 410),
        (ApiError::too_many_requests("m", 5), 429),
        (ApiError::internal("m"), 500),
        (ApiError::bad_gateway("m"), 502),
        (ApiError::service_unavailable("m"), 503),
    ] {
        assert_eq!(error.status.code(), code);
        assert_eq!(error.message, "m");
        assert_eq!(error.retry_after, if code == 429 { Some(5) } else { None });
    }
    let error = refuse(Status::Gone, "over").error();
    assert_eq!(error.status, Status::Gone);
    assert_eq!(error.message, "over");
}

#[test]
fn values_that_are_read_have_their_fields_in_order() {
    let read = |text: &str| agent_hub::client::interpret_response("/", true, "200 OK", text).unwrap();
    let turned = read("{\"b\":{\"d\":1,\"c\":2},\"a\":[]}");
    assert!(json_equal(&turned, &read("{\"a\":[],\"b\":{\"c\":2,\"d\":1}}")));
    match &turned {
        Json::Object(fields) => assert_eq!(fields[0].0, "a"),
        other => panic!("{other:?}"),
    }
    let fresh = parse_id(&new_secret("")[..32]).unwrap();
    assert_eq!((fresh >> 76) % 16, 4);
    assert_eq!((fresh >> 62) % 4, 2);
}
