use lightdash::datastore::{
    _deldatastore, datastore_command, datastore_string, delete_command, json_array_of, key_json,
    list_command, listdatastore, response_is_error, DatastoreMode, DatastoreResponse,
};
use lightdash::lnplus::{message_url, swaps_url, LnPlusClient, SwapStatus};
use lightdash::ratio::Ratio;
use lightdash::text::{
    chars_le, chars_of, contains, decimal_i64, decimal_u64, distinct_strings, holds_text,
    join, magnitude, parse_i64, parse_u64, str_eq, string_of,
};
use lightdash::time::{
    days_between, days_since, hours_between, is_within_days, is_within_hours, Window,
};

fn strings(items: &[&str]) -> Vec<String> {
    items.iter().map(|s| s.to_string()).collect()
}

#[test]
fn datastore_string_quotes_key_and_value_as_json() {
    let args = datastore_string(
        &strings(&["lightdash", "peer_note", "02\"p"]),
        "say \"hi\"\n\\",
        DatastoreMode::CreateOrReplace,
    )
    .expect("a command");
    assert_eq!(
        args,
        vec![
            "datastore",
            "-k",
            "key=[\"lightdash\",\"peer_note\",\"02\\\"p\"]",
            "string=\"say \\\"hi\\\"\\n\\\\\"",
            "mode=create-or-replace",
        ]
    );
}

#[test]
fn datastore_string_agrees_with_serde_json() {
    let value = "a/ü\t\u{1}\"";
    let args = datastore_string(&strings(&["k"]), value, DatastoreMode::MustCreate)
        .expect("a command");
    let quoted = serde_json::to_string(value).expect("json");
    assert_ne!(quoted, value);
    assert_eq!(args[3], format!("string={quoted}"));
    assert_eq!(args[2], format!("key=[{}]", serde_json::to_string("k").expect("json")));
    assert_eq!(args[4], "mode=must-create");
}

#[test]
fn last_run_is_written_under_its_key() {
    let args = datastore_string(
        &strings(&["lightdash", "last_run"]),
        "1700000000",
        DatastoreMode::CreateOrReplace,
    )
    .expect("a command");
    assert_eq!(args[2], "key=[\"lightdash\",\"last_run\"]");
    assert_eq!(args[3], "string=\"1700000000\"");
}

#[test]
fn datastore_modes_by_name() {
    assert_eq!(DatastoreMode::MustCreate.as_str(), "must-create");
    assert_eq!(DatastoreMode::MustReplace.as_str(), "must-replace");
    assert_eq!(DatastoreMode::CreateOrReplace.as_str(), "create-or-replace");
    assert_eq!(DatastoreMode::MustAppend.as_str(), "must-append");
    assert_eq!(DatastoreMode::CreateOrAppend.as_str(), "create-or-append");
}

#[test]
fn datastore_commands() {
    assert_eq!(
        datastore_command("[\"a\"]", "\"v\"", DatastoreMode::MustAppend),
        vec!["datastore", "-k", "key=[\"a\"]", "string=\"v\"", "mode=must-append"]
    );
    assert_eq!(key_json(&strings(&["a", "b"])), Ok("[\"a\",\"b\"]".to_string()));
    assert_eq!(key_json(&vec![]), Ok("[]".to_string()));
    assert_eq!(json_array_of(&strings(&["1", "2"])), "[1,2]");
    assert_eq!(listdatastore(None), Ok(strings(&["listdatastore"])));
    assert_eq!(
        listdatastore(Some(&strings(&["lightdash", "peer_note"]))),
        Ok(strings(&["listdatastore", "[\"lightdash\",\"peer_note\"]"]))
    );
    assert_eq!(
        _deldatastore(&strings(&["lightdash", "x"])),
        Ok(strings(&["deldatastore", "-k", "key", "[\"lightdash\",\"x\"]"]))
    );
    assert_eq!(_deldatastore(&vec![]), Ok(strings(&["deldatastore", "-k", "key", "[]"])));
    assert_eq!(listdatastore(Some(&vec![])), Ok(strings(&["listdatastore", "[]"])));
    assert_eq!(delete_command("[\"a\"]"), vec!["deldatastore", "-k", "key", "[\"a\"]"]);
    assert_eq!(list_command(Some("[\"a\"]")), vec!["listdatastore", "[\"a\"]"]);
    assert_eq!(list_command(None), vec!["listdatastore"]);
    assert_eq!(
        datastore_string(&vec![], "", DatastoreMode::MustReplace),
        Ok(strings(&["datastore", "-k", "key=[]", "string=\"\"", "mode=must-replace"]))
    );
}

#[test]
fn a_response_with_a_code_is_an_error() {
    assert!(response_is_error("{\"code\":-32602,\"message\":\"no\"}"));
    assert!(!response_is_error("{\"key\":[\"a\"],\"generation\":0}"));
    assert!(!response_is_error(""));
    assert!(!response_is_error("\"code\""));
}

#[test]
fn entries_are_told_by_their_key() {
    let e = DatastoreResponse {
        key: strings(&["lightdash", "peer_note", "02p"]),
        generation: None,
        hex: None,
        string: None,
    };
    assert!(e.is_for("peer_note"));
    assert!(!e.is_for("last_setchannel"));
    let short = DatastoreResponse { key: strings(&["lightdash", "peer_note"]), ..e.clone() };
    assert!(!short.is_for("peer_note"));
    let other = DatastoreResponse { key: strings(&["x", "peer_note", "02p"]), ..e };
    assert!(!other.is_for("peer_note"));
}

#[test]
fn numbers_to_text_and_back() {
    assert_eq!(decimal_u64(0), "0");
    assert_eq!(decimal_u64(7), "7");
    assert_eq!(decimal_u64(1_000), "1000");
    assert_eq!(decimal_u64(u64::MAX), "18446744073709551615");
    assert_eq!(decimal_i64(0), "0");
    assert_eq!(decimal_i64(-1), "-1");
    assert_eq!(decimal_i64(i64::MIN), "-9223372036854775808");
    assert_eq!(decimal_i64(i64::MAX), "9223372036854775807");
    assert_eq!(magnitude(i64::MIN), 1u64 << 63);
    assert_eq!(magnitude(-3), 3);
    assert_eq!(parse_u64("0"), Some(0));
    assert_eq!(parse_u64("007"), Some(7));
    assert_eq!(parse_u64("18446744073709551615"), Some(u64::MAX));
    assert_eq!(parse_u64("18446744073709551616"), None);
    assert_eq!(parse_u64(""), None);
    assert_eq!(parse_u64("-1"), None);
    assert_eq!(parse_u64("1 "), None);
    assert_eq!(parse_u64("1x"), None);
    assert_eq!(parse_i64("-9223372036854775808"), Some(i64::MIN));
    assert_eq!(parse_i64("9223372036854775807"), Some(i64::MAX));
    assert_eq!(parse_i64("9223372036854775808"), None);
    assert_eq!(parse_i64("-9223372036854775809"), None);
    assert_eq!(parse_i64("+5"), Some(5));
    assert_eq!(parse_i64("-"), None);
    assert_eq!(parse_i64("1.5"), None);
}

#[test]
fn strings_are_joined_compared_and_searched() {
    assert_eq!(join(&strings(&["a", "b", "c"]), ", "), "a, b, c");
    assert_eq!(join(&strings(&["a"]), ", "), "a");
    assert_eq!(join(&vec![], ", "), "");
    assert_eq!(lightdash::text::concat("ab", "cd"), "abcd");
    assert!(str_eq("abc", "abc"));
    assert!(!str_eq("abc", "abd"));
    assert!(!str_eq("abc", "ab"));
    assert_eq!(string_of(&chars_of("héllo")), "héllo");
    assert!(contains("hello", "ell"));
    assert!(contains("hello", ""));
    assert!(contains("hello", "hello"));
    assert!(!contains("hello", "helloo"));
    assert!(!contains("hello", "lol"));
    assert!(!contains("", "a"));
    let le = |a: &str, b: &str| chars_le(&chars_of(a), &chars_of(b));
    assert!(le("", ""));
    assert!(le("", "a"));
    assert!(!le("a", ""));
    assert!(le("abc", "abd"));
    assert!(le("ab", "abc"));
    assert!(!le("b", "abc"));
    assert!(le("10x", "9x"));
    assert!(le("Z", "a"));
    assert_eq!(distinct_strings(&strings(&["b", "a", "b", "c", "a"])), strings(&["b", "a", "c"]));
    assert!(holds_text(&strings(&["b", "a"]), &"a".to_string()));
    assert!(!holds_text(&strings(&["b", "a"]), &"c".to_string()));
}

#[test]
fn elapsed_time_is_rounded_toward_zero() {
    assert_eq!(days_between(86_400, 0), 1);
    assert_eq!(days_between(86_399, 0), 0);
    assert_eq!(days_between(0, 86_399), 0);
    assert_eq!(days_between(0, 86_400), -1);
    assert_eq!(days_between(i64::MAX, i64::MIN), 213_503_982_334_601);
    assert_eq!(hours_between(7_200, 0), 2);
    assert_eq!(hours_between(7_199, 0), 1);
    assert_eq!(days_since(0, 86_400), -1);
    assert_eq!(days_since(1_700_000_000, 0), 19_675);
    assert_eq!(days_since(i64::MIN, u64::MAX), -320_255_973_501_901);
    assert!(is_within_days(86_400 * 3 - 1, 0, 2));
    assert!(!is_within_days(86_400 * 3, 0, 2));
    assert!(is_within_hours(3_600 * 2 - 1, 0, 1));
    assert!(!is_within_hours(3_600 * 2, 0, 1));
    assert!(is_within_days(0, 1_000_000, 0));
}

#[test]
fn windows_hold_what_they_admit() {
    assert!(Window::Ever.holds(0, i64::MIN));
    assert!(Window::Seconds(10).holds(100, 90));
    assert!(!Window::Seconds(10).holds(100, 89));
    assert!(Window::Seconds(0).holds(100, 100));
    assert!(Window::Seconds(0).holds(100, 101));
    assert!(Window::Days(1).holds(2 * 86_400 - 1, 0));
    assert!(!Window::Days(1).holds(2 * 86_400, 0));
    assert!(Window::Hours(24).holds(25 * 3_600 - 1, 0));
    assert!(!Window::Hours(24).holds(25 * 3_600, 0));
}

#[test]
fn ratios() {
    let r = Ratio::new(7, 2);
    assert_eq!((r.num, r.den), (7, 2));
    assert_eq!(r.whole(), 3);
    assert!(!r.is_zero());
    assert!(Ratio::zero().is_zero());
    assert_eq!(Ratio::zero().whole(), 0);
}

#[test]
fn swap_addresses() {
    assert_eq!(SwapStatus::Pending.as_str(), "pending");
    assert_eq!(SwapStatus::Opening.as_str(), "opening");
    assert_eq!(SwapStatus::Completed.as_str(), "completed");
    assert_eq!(swaps_url(None), "https://lightningnetwork.plus/api/2/get_swaps");
    assert_eq!(
        swaps_url(Some(SwapStatus::Pending)),
        "https://lightningnetwork.plus/api/2/get_swaps/status=pending"
    );
    assert_eq!(message_url(), "https://lightningnetwork.plus/api/2/get_message");
    let client = LnPlusClient::new("msg".to_string(), "sig".to_string());
    assert_eq!(client.message(), "msg");
    assert_eq!(client.signature(), "sig");
}
