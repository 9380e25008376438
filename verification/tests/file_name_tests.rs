use obsidian_slack::slack_url::SlackUrl;
use obsidian_slack::utils::create_file_name;

fn url(channel_id: &str, ts: &str, thread_ts: Option<&str>) -> SlackUrl {
    SlackUrl {
        channel_id: channel_id.to_string(),
        ts: ts.to_string(),
        thread_ts: thread_ts.map(|s| s.to_string()),
    }
}

#[test]
fn file_name_with_equal_thread_ts_dedups() {
    let su = url("C1", "1234567890.123456", Some("1234567890.123456"));
    assert_eq!(create_file_name(&su), "C1-1234567890.123456.json");
}

#[test]
fn file_name_without_thread_ts() {
    let su = url("C1", "1234567890.123456", None);
    assert_eq!(create_file_name(&su), "C1-1234567890.123456.json");
}

#[test]
fn file_name_sorts_thread_ts_before_ts() {
    let su = url("C1", "1234567890.123456", Some("1234567000.000100"));
    assert_eq!(
        create_file_name(&su),
        "C1-1234567000.000100-1234567890.123456.json"
    );
}

#[test]
fn file_name_sorts_ts_before_thread_ts() {
    let su = url("C1", "1234567000.000100", Some("1234567890.123456"));
    assert_eq!(
        create_file_name(&su),
        "C1-1234567000.000100-1234567890.123456.json"
    );
}

#[test]
fn file_name_orders_lexicographically_not_numerically() {
    // Lexicographic comparison: "9.000000" > "10.000000" as strings.
    let su = url("C1", "9.000000", Some("10.000000"));
    assert_eq!(create_file_name(&su), "C1-10.000000-9.000000.json");
}
