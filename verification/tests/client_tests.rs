use obsidian_slack::get_api_base;
use obsidian_slack::slack_http_client::{
    Error, SlackApiQueryParams, SlackHttpClient, SlackHttpClientConfig,
    SlackHttpClientConfigFeatureFlags,
};

fn flags() -> SlackHttpClientConfigFeatureFlags {
    SlackHttpClientConfigFeatureFlags {
        get_users: false,
        get_channel_info: false,
        get_team_info: false,
        get_file_data: false,
    }
}

fn client() -> SlackHttpClient {
    let config = SlackHttpClientConfig::new(
        get_api_base(),
        "xoxc-123".to_string(),
        "xoxd-456".to_string(),
        flags(),
    )
    .unwrap();
    SlackHttpClient::new(config)
}

#[test]
fn api_base_is_the_slack_api() {
    assert_eq!(get_api_base(), "https://slack.com/api");
}

#[test]
fn config_accepts_valid_credentials() {
    let config = SlackHttpClientConfig::new(
        get_api_base(),
        "xoxc-123".to_string(),
        "xoxd-456".to_string(),
        flags(),
    )
    .unwrap();
    assert_eq!(config.token, "xoxc-123");
    assert_eq!(config.cookie, "xoxd-456");
    assert_eq!(config.api_base, "https://slack.com/api");
}

#[test]
fn config_rejects_bad_token_prefix() {
    let err = SlackHttpClientConfig::new(
        get_api_base(),
        "xoxp-123".to_string(),
        "xoxd-456".to_string(),
        flags(),
    )
    .unwrap_err();
    assert!(matches!(err, Error::InvalidSlackApiToken { .. }));
}

#[test]
fn config_rejects_bad_cookie_prefix() {
    let err = SlackHttpClientConfig::new(
        get_api_base(),
        "xoxc-123".to_string(),
        "d-456".to_string(),
        flags(),
    )
    .unwrap_err();
    assert!(matches!(err, Error::InvalidSlackApiCookie { .. }));
}

#[test]
fn config_checks_token_before_cookie() {
    let err = SlackHttpClientConfig::new(
        get_api_base(),
        "bad".to_string(),
        "bad".to_string(),
        flags(),
    )
    .unwrap_err();
    assert!(matches!(err, Error::InvalidSlackApiToken { .. }));
}

#[test]
fn conversations_replies_request() {
    let request = client().get_conversations_replies("C123", "1234567890.123456");
    assert_eq!(
        request.url,
        "https://slack.com/api/conversations.replies?channel=C123&ts=1234567890.123456&inclusive=true&pretty=1"
    );
    assert_eq!(request.method, "POST");
    assert_eq!(request.body.as_deref(), Some("token=xoxc-123"));
    assert!(request
        .headers
        .contains(&("cookie".to_string(), "d=xoxd-456".to_string())));
}

#[test]
fn users_info_request() {
    let request = client().get_users_info("U1");
    assert_eq!(request.url, "https://slack.com/api/users.info?user=U1&pretty=1");
    assert_eq!(request.method, "GET");
    assert_eq!(request.body, None);
    assert!(request
        .headers
        .contains(&("authorization".to_string(), "Bearer xoxc-123".to_string())));
}

#[test]
fn conversations_info_request() {
    let request = client().get_conversations_info("D42");
    assert_eq!(
        request.url,
        "https://slack.com/api/conversations.info?channel=D42&pretty=1"
    );
    assert_eq!(request.method, "GET");
}

#[test]
fn team_info_request() {
    let request = client().get_team_info("T9");
    assert_eq!(request.url, "https://slack.com/api/team.info?team=T9&pretty=1");
    assert_eq!(request.method, "GET");
}

#[test]
fn file_data_request_uses_the_file_url() {
    let request = client().get_file_data("https://files.slack.com/f/1");
    assert_eq!(request.url, "https://files.slack.com/f/1");
    assert_eq!(request.method, "GET");
    assert_eq!(request.body, None);
}

#[test]
fn query_param_names() {
    assert_eq!(SlackApiQueryParams::ts.text(), "ts");
    assert_eq!(SlackApiQueryParams::thread_ts.text(), "thread_ts");
    assert_eq!(SlackApiQueryParams::channel.text(), "channel");
    assert_eq!(SlackApiQueryParams::inclusive.text(), "inclusive");
    assert_eq!(SlackApiQueryParams::pretty.text(), "pretty");
}
