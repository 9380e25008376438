//! The Slack web API client: credential validation, the feature flags
//! that drive a retrieval, and the construction of the HTTP requests that
//! the host's transport sends.

use vstd::prelude::*;
use vstd::string::StringExecFns;

use crate::utils::{is_prefix_of, str_starts_with};

verus! {

/// A credential failed its prefix check.
#[derive(Debug, Clone, PartialEq, Eq)]
pub enum Error {
    /// The api token does not start with `xoxc`; carries the token.
    InvalidSlackApiToken { api_token: String },
    /// The cookie does not start with `xoxd`; carries the cookie.
    InvalidSlackApiCookie { cookie: String },
}

/// The required prefix of an api token.
pub open spec fn token_prefix() -> Seq<char> {
    seq!['x', 'o', 'x', 'c']
}

/// The required prefix of an api cookie.
pub open spec fn cookie_prefix() -> Seq<char> {
    seq!['x', 'o', 'x', 'd']
}

/// Accepts an api token exactly when it starts with `xoxc`.
fn validate_slack_api_token(api_token: &str) -> (r: Result<&str, Error>)
    ensures
        r is Ok <==> is_prefix_of(token_prefix(), api_token@),
        r matches Ok(t) ==> t@ == api_token@,
        r matches Err(e) ==> e matches Error::InvalidSlackApiToken { api_token: t } && t@
            == api_token@,
{
    proof {
        reveal_strlit("xoxc");
        assert("xoxc"@ =~= token_prefix());
    }
    if str_starts_with(api_token, "xoxc") {
        Ok(api_token)
    } else {
        Err(Error::InvalidSlackApiToken { api_token: api_token.to_owned() })
    }
}

/// Accepts an api cookie exactly when it starts with `xoxd`.
fn validate_slack_api_cookie(cookie: &str) -> (r: Result<&str, Error>)
    ensures
        r is Ok <==> is_prefix_of(cookie_prefix(), cookie@),
        r matches Ok(c) ==> c@ == cookie@,
        r matches Err(e) ==> e matches Error::InvalidSlackApiCookie { cookie: c } && c@ == cookie@,
{
    proof {
        reveal_strlit("xoxd");
        assert("xoxd"@ =~= cookie_prefix());
    }
    if str_starts_with(cookie, "xoxd") {
        Ok(cookie)
    } else {
        Err(Error::InvalidSlackApiCookie { cookie: cookie.to_owned() })
    }
}

/// One request for the host's transport: target URL, HTTP method,
/// headers, and an optional form body.
#[derive(Debug, Clone, PartialEq, Eq)]
pub struct RequestUrlParam {
    pub url: String,
    pub method: String,
    pub headers: Vec<(String, String)>,
    pub body: Option<String>,
}

impl RequestUrlParam {
    /// The same request aimed at `url`.
    pub fn with_url(self, url: String) -> (r: Self)
        ensures
            r == (RequestUrlParam { url, ..self }),
    {
        RequestUrlParam { url, ..self }
    }
}

/// The feature flags of one retrieval: which auxiliary entities to fetch
/// and whether to expose file links.
#[derive(Debug, Clone, Copy, PartialEq, Eq, Structural)]
pub struct SlackHttpClientConfigFeatureFlags {
    pub get_users: bool,
    pub get_channel_info: bool,
    pub get_team_info: bool,
    pub get_file_data: bool,
}

/// The validated configuration of a client.
#[derive(Debug, Clone, PartialEq, Eq)]
pub struct SlackHttpClientConfig {
    pub api_base: String,
    pub token: String,
    pub cookie: String,
    pub feature_flags: SlackHttpClientConfigFeatureFlags,
}

impl SlackHttpClientConfig {
    /// Validates the credentials before any network activity: the token
    /// must start with `xoxc`, the cookie with `xoxd`.
    pub fn new(
        api_base: String,
        token: String,
        cookie: String,
        feature_flags: SlackHttpClientConfigFeatureFlags,
    ) -> (r: Result<SlackHttpClientConfig, Error>)
        ensures
            r is Ok <==> is_prefix_of(token_prefix(), token@) && is_prefix_of(
                cookie_prefix(),
                cookie@,
            ),
            r matches Ok(cfg) ==> cfg == (SlackHttpClientConfig {
                api_base,
                token,
                cookie,
                feature_flags,
            }),
            r matches Err(e) ==> match e {
                Error::InvalidSlackApiToken { api_token: t } => t@ == token@ && !is_prefix_of(
                    token_prefix(),
                    token@,
                ),
                Error::InvalidSlackApiCookie { cookie: c } => c@ == cookie@ && is_prefix_of(
                    token_prefix(),
                    token@,
                ) && !is_prefix_of(cookie_prefix(), cookie@),
            },
    {
        match validate_slack_api_token(token.as_str()) {
            Err(e) => {
                return Err(e);
            },
            Ok(_) => {},
        }
        match validate_slack_api_cookie(cookie.as_str()) {
            Err(e) => {
                return Err(e);
            },
            Ok(_) => {},
        }
        Ok(SlackHttpClientConfig { api_base, token, cookie, feature_flags })
    }
}

/// The names of the query parameters the client uses.
#[allow(non_camel_case_types)]
#[derive(Debug, Clone, Copy, PartialEq, Eq, Structural)]
pub enum SlackApiQueryParams {
    ts,
    thread_ts,
    channel,
    inclusive,
    pretty,
}

impl SlackApiQueryParams {
    /// The parameter name as it appears in a query string.
    pub fn text(&self) -> (r: &'static str)
        ensures
            match self {
                SlackApiQueryParams::ts => r@ == "ts"@,
                SlackApiQueryParams::thread_ts => r@ == "thread_ts"@,
                SlackApiQueryParams::channel => r@ == "channel"@,
                SlackApiQueryParams::inclusive => r@ == "inclusive"@,
                SlackApiQueryParams::pretty => r@ == "pretty"@,
            },
    {
        match self {
            SlackApiQueryParams::ts => "ts",
            SlackApiQueryParams::thread_ts => "thread_ts",
            SlackApiQueryParams::channel => "channel",
            SlackApiQueryParams::inclusive => "inclusive",
            SlackApiQueryParams::pretty => "pretty",
        }
    }
}

/// The `key=value` pairs of a query string, joined with `&`, in order.
pub open spec fn spec_query(params: Seq<(Seq<char>, Seq<char>)>) -> Seq<char>
    decreases params.len(),
{
    if params.len() == 0 {
        Seq::empty()
    } else if params.len() == 1 {
        params[0].0 + seq!['='] + params[0].1
    } else {
        spec_query(params.drop_last()) + seq!['&'] + params.last().0 + seq!['='] + params.last().1
    }
}

/// The `pretty` parameter appended to every API request.
pub open spec fn pretty_param() -> (Seq<char>, Seq<char>) {
    (seq!['p', 'r', 'e', 't', 't', 'y'], seq!['1'])
}

/// The URL of an API request: the base, a slash, the endpoint, and the
/// query parameters with `pretty=1` appended.
pub open spec fn spec_request_uri(
    base: Seq<char>,
    endpoint: Seq<char>,
    params: Seq<(Seq<char>, Seq<char>)>,
) -> Seq<char> {
    base + seq!['/'] + endpoint + seq!['?'] + spec_query(params.push(pretty_param()))
}

/// Builds requests against the Slack web API; the host's transport sends
/// them.
#[derive(Debug, Clone, PartialEq, Eq)]
pub struct SlackHttpClient {
    pub config: SlackHttpClientConfig,
}

impl SlackHttpClient {
    /// A client over a validated configuration.
    pub fn new(config: SlackHttpClientConfig) -> (r: SlackHttpClient)
        ensures
            r.config == config,
    {
        SlackHttpClient { config }
    }

    /// The request URL for an endpoint with the given query parameters.
    fn build_request_uri(&self, endpoint: &str, params: &Vec<(String, String)>) -> (r: String)
        ensures
            r@ == spec_request_uri(self.config.api_base@, endpoint@, params.deep_view()),
    {
        let ghost dv = params.deep_view();
        let mut s = self.config.api_base.clone();
        s.append("/");
        s.append(endpoint);
        s.append("?");
        proof {
            reveal_strlit("/");
            reveal_strlit("?");
            reveal_strlit("=");
            reveal_strlit("&");
            reveal_strlit("&pretty=1");
            reveal_strlit("pretty=1");
            assert("/"@ =~= seq!['/']);
            assert("?"@ =~= seq!['?']);
            assert("="@ =~= seq!['=']);
            assert("&"@ =~= seq!['&']);
            assert("pretty=1"@ =~= pretty_param().0 + seq!['='] + pretty_param().1);
            assert("&pretty=1"@ =~= seq!['&'] + pretty_param().0 + seq!['='] + pretty_param().1);
        }
        let ghost head = self.config.api_base@ + seq!['/'] + endpoint@ + seq!['?'];
        let mut i: usize = 0;
        while i < params.len()
            invariant
                i <= dv.len(),
                dv == params.deep_view(),
                dv.len() == params@.len(),
                forall|k: int|
                    0 <= k < dv.len() ==> dv[k] == (params@[k].0@, params@[k].1@),
                head == self.config.api_base@ + seq!['/'] + endpoint@ + seq!['?'],
                s@ == head + spec_query(dv.take(i as int)),
            decreases dv.len() - i,
        {
            if i > 0 {
                s.append("&");
            }
            s.append(params[i].0.as_str());
            s.append("=");
            s.append(params[i].1.as_str());
            proof {
                reveal_strlit("&");
                reveal_strlit("=");
                assert(dv.take(i as int + 1).drop_last() =~= dv.take(i as int));
                assert(dv.take(i as int + 1).last() == dv[i as int]);
                assert(s@ =~= head + spec_query(dv.take(i as int + 1)));
            }
            i = i + 1;
        }
        proof {
            assert(dv.take(dv.len() as int) =~= dv);
        }
        if params.len() == 0 {
            s.append("pretty=1");
        } else {
            s.append("&pretty=1");
        }
        proof {
            assert(dv.push(pretty_param()).drop_last() =~= dv);
            assert(dv.push(pretty_param()).last() == pretty_param());
            assert(s@ =~= head + spec_query(dv.push(pretty_param())));
        }
        s
    }

    /// The base of every POST request: form content type, the cookie
    /// header, and the token as the body.
    fn build_base_post_request(&self) -> (r: RequestUrlParam)
        ensures
            r.url@ == ""@,
            r.method@ == "POST"@,
            r.headers.deep_view() == seq![
                ("content-type"@, "application/x-www-form-urlencoded"@),
                ("cookie"@, "d="@ + self.config.cookie@),
            ],
            r.body matches Some(b) && b@ == "token="@ + self.config.token@,
    {
        let mut headers: Vec<(String, String)> = Vec::new();
        let mut cookie = "d=".to_owned();
        cookie.append(self.config.cookie.as_str());
        headers.push(
            ("content-type".to_owned(), "application/x-www-form-urlencoded".to_owned()),
        );
        headers.push(("cookie".to_owned(), cookie));
        let mut body = "token=".to_owned();
        body.append(self.config.token.as_str());
        proof {
            assert(headers.deep_view() =~= seq![
                ("content-type"@, "application/x-www-form-urlencoded"@),
                ("cookie"@, "d="@ + self.config.cookie@),
            ]);
        }
        RequestUrlParam {
            url: "".to_owned(),
            method: "POST".to_owned(),
            headers,
            body: Some(body),
        }
    }

    /// The base of every GET request: form content type, the cookie
    /// header, and the token as a bearer authorization header.
    fn build_base_get_request(&self) -> (r: RequestUrlParam)
        ensures
            r.url@ == ""@,
            r.method@ == "GET"@,
            r.headers.deep_view() == seq![
                ("content-type"@, "application/x-www-form-urlencoded"@),
                ("cookie"@, "d="@ + self.config.cookie@),
                ("authorization"@, "Bearer "@ + self.config.token@),
            ],
            r.body is None,
    {
        let mut headers: Vec<(String, String)> = Vec::new();
        let mut cookie = "d=".to_owned();
        cookie.append(self.config.cookie.as_str());
        let mut auth = "Bearer ".to_owned();
        auth.append(self.config.token.as_str());
        headers.push(
            ("content-type".to_owned(), "application/x-www-form-urlencoded".to_owned()),
        );
        headers.push(("cookie".to_owned(), cookie));
        headers.push(("authorization".to_owned(), auth));
        proof {
            assert(headers.deep_view() =~= seq![
                ("content-type"@, "application/x-www-form-urlencoded"@),
                ("cookie"@, "d="@ + self.config.cookie@),
                ("authorization"@, "Bearer "@ + self.config.token@),
            ]);
        }
        RequestUrlParam { url: "".to_owned(), method: "GET".to_owned(), headers, body: None }
    }

    /// The GET request that downloads one file.
    pub fn get_file_data(&self, file_url: &str) -> (r: RequestUrlParam)
        ensures
            r.url@ == file_url@,
            r.method@ == "GET"@,
            r.headers.deep_view() == seq![
                ("content-type"@, "application/x-www-form-urlencoded"@),
                ("cookie"@, "d="@ + self.config.cookie@),
                ("authorization"@, "Bearer "@ + self.config.token@),
            ],
            r.body is None,
    {
        self.build_base_get_request().with_url(file_url.to_owned())
    }

    /// The POST request that fetches the replies of a thread.
    pub fn get_conversations_replies(&self, channel_id: &str, timestamp: &str) -> (r:
        RequestUrlParam)
        ensures
            r.url@ == spec_request_uri(
                self.config.api_base@,
                "conversations.replies"@,
                seq![("channel"@, channel_id@), ("ts"@, timestamp@), ("inclusive"@, "true"@)],
            ),
            r.method@ == "POST"@,
            r.body matches Some(b) && b@ == "token="@ + self.config.token@,
    {
        let mut params: Vec<(String, String)> = Vec::new();
        params.push((SlackApiQueryParams::channel.text().to_owned(), channel_id.to_owned()));
        params.push((SlackApiQueryParams::ts.text().to_owned(), timestamp.to_owned()));
        params.push((SlackApiQueryParams::inclusive.text().to_owned(), "true".to_owned()));
        proof {
            assert(params.deep_view() =~= seq![
                ("channel"@, channel_id@),
                ("ts"@, timestamp@),
                ("inclusive"@, "true"@),
            ]);
        }
        let request_url = self.build_request_uri("conversations.replies", &params);
        self.build_base_post_request().with_url(request_url)
    }

    /// The GET request that fetches one user.
    pub fn get_users_info(&self, user_id: &str) -> (r: RequestUrlParam)
        ensures
            r.url@ == spec_request_uri(
                self.config.api_base@,
                "users.info"@,
                seq![("user"@, user_id@)],
            ),
            r.method@ == "GET"@,
            r.body is None,
    {
        let mut params: Vec<(String, String)> = Vec::new();
        params.push(("user".to_owned(), user_id.to_owned()));
        proof {
            assert(params.deep_view() =~= seq![("user"@, user_id@)]);
        }
        let request_url = self.build_request_uri("users.info", &params);
        self.build_base_get_request().with_url(request_url)
    }

    /// The GET request that fetches one channel.
    pub fn get_conversations_info(&self, channel_id: &str) -> (r: RequestUrlParam)
        ensures
            r.url@ == spec_request_uri(
                self.config.api_base@,
                "conversations.info"@,
                seq![("channel"@, channel_id@)],
            ),
            r.method@ == "GET"@,
            r.body is None,
    {
        let mut params: Vec<(String, String)> = Vec::new();
        params.push(("channel".to_owned(), channel_id.to_owned()));
        proof {
            assert(params.deep_view() =~= seq![("channel"@, channel_id@)]);
        }
        let request_url = self.build_request_uri("conversations.info", &params);
        self.build_base_get_request().with_url(request_url)
    }

    /// The GET request that fetches one team.
    pub fn get_team_info(&self, team_id: &str) -> (r: RequestUrlParam)
        ensures
            r.url@ == spec_request_uri(
                self.config.api_base@,
                "team.info"@,
                seq![("team"@, team_id@)],
            ),
            r.method@ == "GET"@,
            r.body is None,
    {
        let mut params: Vec<(String, String)> = Vec::new();
        params.push(("team".to_owned(), team_id.to_owned()));
        proof {
            assert(params.deep_view() =~= seq![("team"@, team_id@)]);
        }
        let request_url = self.build_request_uri("team.info", &params);
        self.build_base_get_request().with_url(request_url)
    }
}

} // verus!
