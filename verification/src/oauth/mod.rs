//! OAuth for API providers: the authorization URL and what comes back on
//! the local callback.
//!
//! Opening the browser and serving the callback are left to the caller.
//! Here are the rules: how the URL is made, which port the callback listens
//! on, and what a callback request means.

use crate::number::{decimal, lower_hex, parse_port, port_number, to_decimal, to_lower_hex};
use crate::text::{
    find, find_exec, join, joined, occurs_at_exec, second_word, second_word_exec, split,
    split_exec, strip_prefix, strip_suffix, to_chars, trim, trim_exec,
};
use vstd::prelude::*;
use vstd::utf8::encode_utf8;

verus! {

/// OAuth configuration for a provider.
#[derive(Debug, PartialEq, Eq)]
pub struct OAuthConfig {
    /// Provider name, such as `qwen`.
    pub provider: String,
    /// Where the user authorizes.
    pub auth_url: String,
    /// Where a code is traded for a token.
    pub token_url: String,
    pub client_id: String,
    pub client_secret: Option<String>,
    pub scopes: Vec<String>,
    /// Where the provider sends the user back to, on this machine.
    pub redirect_uri: String,
}

/// The mathematical content of an `OAuthConfig`.
pub struct OAuthConfigView {
    pub provider: Seq<char>,
    pub auth_url: Seq<char>,
    pub token_url: Seq<char>,
    pub client_id: Seq<char>,
    pub client_secret: Option<Seq<char>>,
    pub scopes: Seq<Seq<char>>,
    pub redirect_uri: Seq<char>,
}

impl View for OAuthConfig {
    type V = OAuthConfigView;

    open spec fn view(&self) -> OAuthConfigView {
        OAuthConfigView {
            provider: self.provider@,
            auth_url: self.auth_url@,
            token_url: self.token_url@,
            client_id: self.client_id@,
            client_secret: self.client_secret.deep_view(),
            scopes: self.scopes.deep_view(),
            redirect_uri: self.redirect_uri@,
        }
    }
}

impl Clone for OAuthConfig {
    /// A copy with the same content.
    fn clone(&self) -> (copy: OAuthConfig)
        ensures
            copy@ == self@,
    {
        let mut scopes: Vec<String> = Vec::new();
        let mut i: usize = 0;
        while i < self.scopes.len()
            invariant
                i <= self.scopes.len(),
                scopes.len() == i,
                forall|k: int| 0 <= k < i ==> scopes@[k]@ == self.scopes@[k]@,
            decreases self.scopes.len() - i,
        {
            scopes.push(self.scopes[i].clone());
            i += 1;
        }
        assert(scopes.deep_view() =~= self.scopes.deep_view());
        OAuthConfig {
            provider: self.provider.clone(),
            auth_url: self.auth_url.clone(),
            token_url: self.token_url.clone(),
            client_id: self.client_id.clone(),
            client_secret: match &self.client_secret {
                Some(secret) => Some(secret.clone()),
                None => None,
            },
            scopes,
            redirect_uri: self.redirect_uri.clone(),
        }
    }
}

/// What a successful authentication yields.
#[derive(Debug, PartialEq, Eq)]
pub struct OAuthCredentials {
    pub access_token: String,
    pub refresh_token: Option<String>,
    /// Usually `Bearer`.
    pub token_type: String,
    /// Seconds until the token expires.
    pub expires_in: Option<u64>,
    pub provider: String,
}

/// The mathematical content of `OAuthCredentials`.
pub struct OAuthCredentialsView {
    pub access_token: Seq<char>,
    pub refresh_token: Option<Seq<char>>,
    pub token_type: Seq<char>,
    pub expires_in: Option<u64>,
    pub provider: Seq<char>,
}

impl View for OAuthCredentials {
    type V = OAuthCredentialsView;

    open spec fn view(&self) -> OAuthCredentialsView {
        OAuthCredentialsView {
            access_token: self.access_token@,
            refresh_token: self.refresh_token.deep_view(),
            token_type: self.token_type@,
            expires_in: self.expires_in,
            provider: self.provider@,
        }
    }
}

impl Clone for OAuthCredentials {
    /// A copy with the same content.
    fn clone(&self) -> (copy: OAuthCredentials)
        ensures
            copy@ == self@,
    {
        OAuthCredentials {
            access_token: self.access_token.clone(),
            refresh_token: match &self.refresh_token {
                Some(token) => Some(token.clone()),
                None => None,
            },
            token_type: self.token_type.clone(),
            expires_in: self.expires_in,
            provider: self.provider.clone(),
        }
    }
}

/// The configuration for Qwen on DashScope.
pub open spec fn qwen_config() -> OAuthConfigView {
    OAuthConfigView {
        provider: "qwen"@,
        auth_url: "https://dashscope.aliyuncs.com/authorizations"@,
        token_url: "https://dashscope.aliyuncs.com/authorizations/oauth/token"@,
        client_id: "zeroclaw"@,
        client_secret: None,
        scopes: seq!["openid"@, "profile"@],
        redirect_uri: "http://localhost:8080/callback"@,
    }
}

/// A byte that a URL may hold as it is: a letter, a digit, or one of
/// `-`, `.`, `_` and `~`.
pub open spec fn is_unreserved(byte: u8) -> bool {
    ||| 0x30 <= byte <= 0x39
    ||| 0x41 <= byte <= 0x5A
    ||| 0x61 <= byte <= 0x7A
    ||| byte == 0x2D
    ||| byte == 0x2E
    ||| byte == 0x5F
    ||| byte == 0x7E
}

/// The upper-case hexadecimal digit of a value below sixteen.
pub open spec fn upper_hex_digit(value: u8) -> char {
    if value < 10 {
        (48 + value) as char
    } else {
        (55 + value) as char
    }
}

/// One byte as it stands in a URL: itself, or `%` and its two digits.
pub open spec fn escaped_byte(byte: u8) -> Seq<char> {
    if is_unreserved(byte) {
        seq![byte as char]
    } else {
        seq!['%', upper_hex_digit(byte / 16), upper_hex_digit(byte % 16)]
    }
}

/// Bytes as they stand in a URL.
pub open spec fn percent_encoded(bytes: Seq<u8>) -> Seq<char>
    decreases bytes.len(),
{
    if bytes.len() == 0 {
        Seq::empty()
    } else {
        percent_encoded(bytes.drop_last()) + escaped_byte(bytes.last())
    }
}

/// Calls `urlencoding::encode`.  Trusted: every byte of the text's UTF-8
/// form is kept where it is a letter, a digit, `-`, `.`, `_` or `~`, and is
/// else replaced by `%` and its two upper-case hexadecimal digits.
#[verifier::external_body]
fn percent_encode(text: &str) -> (encoded: String)
    ensures
        encoded@ == percent_encoded(encode_utf8(text@)),
{
    urlencoding::encode(text).into_owned()
}

/// `std::time::SystemTime`, a moment of the system clock: it is carried
/// from the clock to the measuring and never looked into.
#[verifier::external_type_specification]
#[verifier::external_body]
pub struct ExSystemTime(std::time::SystemTime);

/// Calls `SystemTime::now`.  Nothing is known of the moment.
#[verifier::external_body]
fn now() -> std::time::SystemTime {
    std::time::SystemTime::now()
}

/// Calls `SystemTime::duration_since` with the Unix epoch: the time from
/// the epoch to the moment, and `None` for a moment before the epoch.
/// Nothing is known of either.
#[verifier::external_body]
fn since_epoch(moment: &std::time::SystemTime) -> Option<std::time::Duration> {
    match moment.duration_since(std::time::UNIX_EPOCH) {
        Ok(elapsed) => Some(elapsed),
        Err(_) => None,
    }
}

/// Calls `Duration::as_nanos`.  Nothing is known of the number.
#[verifier::external_body]
fn as_nanos(elapsed: &std::time::Duration) -> u128 {
    elapsed.as_nanos()
}

/// One parameter as it stands in a query: the key, `=`, and the value
/// percent-encoded.
pub open spec fn encoded_pair(pair: (Seq<char>, Seq<char>)) -> Seq<char> {
    pair.0 + "="@ + percent_encoded(encode_utf8(pair.1))
}

/// Each parameter as it stands in a query.
pub open spec fn encoded_pairs(params: Seq<(Seq<char>, Seq<char>)>) -> Seq<Seq<char>> {
    Seq::new(params.len(), |i: int| encoded_pair(params[i]))
}

/// The parameters as a query: in order, with `&` between them.
pub open spec fn form_encoded(params: Seq<(Seq<char>, Seq<char>)>) -> Seq<char> {
    joined(encoded_pairs(params), "&"@)
}

/// The parameters of an authorization request, in the order in which they
/// stand in the URL.
pub open spec fn auth_params(config: OAuthConfigView, state: Seq<char>) -> Seq<
    (Seq<char>, Seq<char>),
> {
    seq![
        ("client_id"@, config.client_id),
        ("redirect_uri"@, config.redirect_uri),
        ("response_type"@, "code"@),
        ("scope"@, joined(config.scopes, " "@)),
        ("state"@, state),
    ]
}

/// The authorization URL for a state token.
pub open spec fn auth_url(config: OAuthConfigView, state: Seq<char>) -> Seq<char> {
    config.auth_url + "?"@ + form_encoded(auth_params(config, state))
}

impl OAuthConfig {
    /// The configuration for Qwen on DashScope.
    pub fn qwen() -> (config: OAuthConfig)
        ensures
            config@ == qwen_config(),
    {
        let mut scopes: Vec<String> = Vec::new();
        scopes.push("openid".to_owned());
        scopes.push("profile".to_owned());
        assert(scopes.deep_view() =~= seq!["openid"@, "profile"@]);
        OAuthConfig {
            provider: "qwen".to_owned(),
            auth_url: "https://dashscope.aliyuncs.com/authorizations".to_owned(),
            token_url: "https://dashscope.aliyuncs.com/authorizations/oauth/token".to_owned(),
            client_id: "zeroclaw".to_owned(),
            client_secret: None,
            scopes,
            redirect_uri: "http://localhost:8080/callback".to_owned(),
        }
    }

    /// Writes parameters as a query: `key=value` for each, the value
    /// percent-encoded, with `&` between them.
    pub fn form_encode(params: &Vec<(String, String)>) -> (query: String)
        ensures
            query@ == form_encoded(params.deep_view()),
    {
        let mut pairs: Vec<String> = Vec::new();
        let mut i: usize = 0;
        while i < params.len()
            invariant
                i <= params.len(),
                pairs.len() == i,
                forall|k: int|
                    0 <= k < i ==> pairs@[k]@ == encoded_pair(#[trigger] params.deep_view()[k]),
            decreases params.len() - i,
        {
            let mut pair = params[i].0.clone();
            pair.append("=");
            let value = percent_encode(params[i].1.as_str());
            pair.append(value.as_str());
            assert(params.deep_view()[i as int] == (params@[i as int].0@, params@[i as int].1@));
            pairs.push(pair);
            i += 1;
        }
        assert(pairs.deep_view() =~= encoded_pairs(params.deep_view()));
        join(&pairs, "&")
    }

    /// The token that a moment of the clock gives: its nanoseconds in
    /// hexadecimal.
    pub fn state_token(nanos: u128) -> (state: String)
        ensures
            state@ == lower_hex(nanos as nat),
    {
        to_lower_hex(nanos)
    }

    /// Makes a state token against forged callbacks from the clock: the
    /// nanoseconds since the Unix epoch, and zero where the clock stands
    /// before it.
    pub fn generate_state() -> (state: String)
        ensures
            exists|nanos: u128| state@ == lower_hex(nanos as nat),
    {
        let nanos: u128 = match since_epoch(&now()) {
            Some(elapsed) => as_nanos(&elapsed),
            None => 0,
        };
        OAuthConfig::state_token(nanos)
    }

    /// The authorization URL for a state token.
    pub fn auth_url_for(&self, state: &str) -> (url: String)
        ensures
            url@ == auth_url(self@, state@),
    {
        let mut params: Vec<(String, String)> = Vec::new();
        params.push(("client_id".to_owned(), self.client_id.clone()));
        params.push(("redirect_uri".to_owned(), self.redirect_uri.clone()));
        params.push(("response_type".to_owned(), "code".to_owned()));
        params.push(("scope".to_owned(), join(&self.scopes, " ")));
        params.push(("state".to_owned(), state.to_owned()));
        assert(params.deep_view() =~= auth_params(self@, state@));
        let mut url = self.auth_url.clone();
        url.append("?");
        let query = OAuthConfig::form_encode(&params);
        url.append(query.as_str());
        url
    }

    /// The authorization URL, with a fresh state token.  It always
    /// succeeds.
    pub fn get_auth_url(&self) -> (url: Result<String, OAuthError>)
        ensures
            url matches Ok(text) && exists|nanos: u128|
                text@ == auth_url(self@, lower_hex(nanos as nat)),
    {
        let state = OAuthConfig::generate_state();
        Ok(self.auth_url_for(state.as_str()))
    }
}

/// Why a step of the OAuth flow failed.
#[derive(Debug, PartialEq, Eq)]
pub enum OAuthError {
    /// The redirect URI is not `http://localhost:<port>/callback`.
    InvalidRedirectUri(String),
    /// The port of the redirect URI is no port number.
    InvalidPort,
    /// The request line has no path.
    InvalidRequest,
    /// The path of the request is not the callback's.
    InvalidCallbackPath(String),
    /// The provider reported this error.
    Provider(String),
    /// The callback carries neither a code nor an error.
    MissingCode,
}

/// The mathematical content of an `OAuthError`.
pub enum OAuthErrorView {
    InvalidRedirectUri(Seq<char>),
    InvalidPort,
    InvalidRequest,
    InvalidCallbackPath(Seq<char>),
    Provider(Seq<char>),
    MissingCode,
}

impl View for OAuthError {
    type V = OAuthErrorView;

    open spec fn view(&self) -> OAuthErrorView {
        match self {
            OAuthError::InvalidRedirectUri(uri) => OAuthErrorView::InvalidRedirectUri(uri@),
            OAuthError::InvalidPort => OAuthErrorView::InvalidPort,
            OAuthError::InvalidRequest => OAuthErrorView::InvalidRequest,
            OAuthError::InvalidCallbackPath(path) => OAuthErrorView::InvalidCallbackPath(path@),
            OAuthError::Provider(error) => OAuthErrorView::Provider(error@),
            OAuthError::MissingCode => OAuthErrorView::MissingCode,
        }
    }
}

impl OAuthErrorView {
    /// The error in words.
    pub open spec fn message(self) -> Seq<char> {
        match self {
            OAuthErrorView::InvalidRedirectUri(uri) => "Invalid redirect_uri format: "@ + uri,
            OAuthErrorView::InvalidPort => "Invalid port in redirect_uri"@,
            OAuthErrorView::InvalidRequest => "Invalid HTTP request"@,
            OAuthErrorView::InvalidCallbackPath(path) => "Invalid callback path: "@ + path,
            OAuthErrorView::Provider(error) => "OAuth error: "@ + error,
            OAuthErrorView::MissingCode => "No code in OAuth callback"@,
        }
    }
}

impl OAuthError {
    /// The error in words.
    pub fn message(&self) -> (text: String)
        ensures
            text@ == self@.message(),
    {
        match self {
            OAuthError::InvalidRedirectUri(uri) => {
                let mut text = "Invalid redirect_uri format: ".to_owned();
                text.append(uri.as_str());
                text
            },
            OAuthError::InvalidPort => "Invalid port in redirect_uri".to_owned(),
            OAuthError::InvalidRequest => "Invalid HTTP request".to_owned(),
            OAuthError::InvalidCallbackPath(path) => {
                let mut text = "Invalid callback path: ".to_owned();
                text.append(path.as_str());
                text
            },
            OAuthError::Provider(error) => {
                let mut text = "OAuth error: ".to_owned();
                text.append(error.as_str());
                text
            },
            OAuthError::MissingCode => "No code in OAuth callback".to_owned(),
        }
    }
}

/// The key and the value of one piece of a query: what stands before its
/// first `=` and what stands after it.  A piece without `=` is no pair.
pub open spec fn pair_of(piece: Seq<char>) -> Option<(Seq<char>, Seq<char>)> {
    match find(piece, seq!['='], 0) {
        Some(at) => Some((piece.subrange(0, at), piece.subrange(at + 1, piece.len() as int))),
        None => None,
    }
}

/// The pairs of the pieces, in order.
pub open spec fn collect_pairs(pieces: Seq<Seq<char>>) -> Seq<(Seq<char>, Seq<char>)>
    decreases pieces.len(),
{
    if pieces.len() == 0 {
        Seq::empty()
    } else {
        let before = collect_pairs(pieces.drop_last());
        match pair_of(pieces.last()) {
            Some(pair) => before.push(pair),
            None => before,
        }
    }
}

/// The pairs of a query: its pieces between `&`, each parted at its first
/// `=`.
pub open spec fn query_pairs(query: Seq<char>) -> Seq<(Seq<char>, Seq<char>)> {
    collect_pairs(split(query, '&'))
}

/// The pairs as a map: where a key comes twice, the later value stays.
pub open spec fn pairs_map(pairs: Seq<(Seq<char>, Seq<char>)>) -> Map<Seq<char>, Seq<char>>
    decreases pairs.len(),
{
    if pairs.len() == 0 {
        Map::empty()
    } else {
        pairs_map(pairs.drop_last()).insert(pairs.last().0, pairs.last().1)
    }
}

/// The parameters of a query.
#[derive(Debug, PartialEq, Eq)]
pub struct QueryParams {
    pairs: Vec<(String, String)>,
}

impl View for QueryParams {
    type V = Map<Seq<char>, Seq<char>>;

    closed spec fn view(&self) -> Map<Seq<char>, Seq<char>> {
        pairs_map(self.pairs.deep_view())
    }
}

impl QueryParams {
    /// The value under `key`.
    pub fn get(&self, key: &str) -> (value: Option<&String>)
        ensures
            match value {
                Some(text) => self@.contains_key(key@) && self@[key@] == text@,
                None => !self@.contains_key(key@),
            },
    {
        let wanted = key.to_owned();
        let ghost all = self.pairs.deep_view();
        let mut value: Option<&String> = None;
        let mut i: usize = 0;
        assert(all.subrange(0, 0) =~= Seq::empty());
        while i < self.pairs.len()
            invariant
                i <= self.pairs.len(),
                wanted@ == key@,
                all == self.pairs.deep_view(),
                match value {
                    Some(text) => pairs_map(all.subrange(0, i as int)).contains_key(key@)
                        && pairs_map(all.subrange(0, i as int))[key@] == text@,
                    None => !pairs_map(all.subrange(0, i as int)).contains_key(key@),
                },
            decreases self.pairs.len() - i,
        {
            assert(all.subrange(0, i + 1).drop_last() =~= all.subrange(0, i as int));
            assert(all.subrange(0, i + 1).last() == (
                self.pairs@[i as int].0@,
                self.pairs@[i as int].1@,
            ));
            if self.pairs[i].0 == wanted {
                value = Some(&self.pairs[i].1);
            }
            i += 1;
        }
        assert(all.subrange(0, all.len() as int) =~= all);
        value
    }

    /// Whether there is no parameter.
    pub fn is_empty(&self) -> (empty: bool)
        ensures
            empty <==> forall|key: Seq<char>| !self@.contains_key(key),
    {
        let empty = self.pairs.len() == 0;
        proof {
            let all = self.pairs.deep_view();
            if !empty {
                assert(self@.contains_key(all.last().0));
            }
        }
        empty
    }
}

/// What a handler of the flow knows: its configuration.
pub struct OAuthHandler {
    config: OAuthConfig,
}

/// The port of a redirect URI of the form
/// `http://localhost:<port>/callback`.
pub open spec fn redirect_port(uri: Seq<char>) -> Result<u16, OAuthErrorView> {
    match strip_prefix(uri, "http://localhost:"@) {
        Some(rest) => match strip_suffix(rest, "/callback"@) {
            Some(port) => match port_number(port) {
                Some(number) => Ok(number),
                None => Err(OAuthErrorView::InvalidPort),
            },
            None => Err(OAuthErrorView::InvalidRedirectUri(uri)),
        },
        None => Err(OAuthErrorView::InvalidRedirectUri(uri)),
    }
}

/// What the first line of a callback request yields: the code that its
/// query carries, as the credentials for `provider`, or why there is none.
pub open spec fn callback_outcome(provider: Seq<char>, request_line: Seq<char>) -> Result<
    OAuthCredentialsView,
    OAuthErrorView,
> {
    match second_word(request_line) {
        None => Err(OAuthErrorView::InvalidRequest),
        Some(path) => match strip_prefix(path, "/callback?"@) {
            None => Err(OAuthErrorView::InvalidCallbackPath(path)),
            Some(query) => {
                let params = pairs_map(query_pairs(query));
                if params.contains_key("code"@) {
                    Ok(
                        OAuthCredentialsView {
                            access_token: params["code"@],
                            refresh_token: None,
                            token_type: "Bearer"@,
                            expires_in: None,
                            provider,
                        },
                    )
                } else if params.contains_key("error"@) {
                    Err(OAuthErrorView::Provider(params["error"@]))
                } else {
                    Err(OAuthErrorView::MissingCode)
                }
            },
        },
    }
}

/// The page that tells the user that the authentication went through.
pub const SUCCESS_PAGE: &'static str =
    "<!DOCTYPE html>\n<html>\n<head><title>Authentication Successful</title></head>\n<body>\n    <h1>Authentication Successful!</h1>\n    <p>You can close this window and return to ZeroClaw.</p>\n    <script>window.close();</script>\n</body>\n</html>";

/// The HTTP response that carries the page: status, type, the length of the
/// page in bytes, an empty line and the page.
pub open spec fn success_response() -> Seq<char> {
    "HTTP/1.1 200 OK\r\nContent-Type: text/html\r\nContent-Length: "@ + decimal(
        encode_utf8(SUCCESS_PAGE@).len(),
    ) + "\r\n\r\n"@ + SUCCESS_PAGE@
}

impl OAuthHandler {
    /// The configuration that the handler was made with.
    pub closed spec fn config(&self) -> OAuthConfigView {
        self.config@
    }

    /// A handler for a configuration.
    pub fn new(config: OAuthConfig) -> (handler: OAuthHandler)
        ensures
            handler.config() == config@,
    {
        OAuthHandler { config }
    }

    /// The port on which the callback is to be served: that of the
    /// redirect URI.
    pub fn extract_port(&self) -> (port: Result<u16, OAuthError>)
        ensures
            match port {
                Ok(number) => redirect_port(self.config().redirect_uri) == Ok::<
                    u16,
                    OAuthErrorView,
                >(number),
                Err(error) => redirect_port(self.config().redirect_uri) == Err::<
                    u16,
                    OAuthErrorView,
                >(error@),
            },
    {
        let uri = to_chars(self.config.redirect_uri.as_str());
        let prefix = to_chars("http://localhost:");
        let suffix = to_chars("/callback");
        if !occurs_at_exec(&uri, &prefix, 0) {
            return Err(OAuthError::InvalidRedirectUri(self.config.redirect_uri.clone()));
        }
        let ghost rest = uri@.subrange(prefix.len() as int, uri.len() as int);
        if uri.len() - prefix.len() < suffix.len() {
            return Err(OAuthError::InvalidRedirectUri(self.config.redirect_uri.clone()));
        }
        let end: usize = uri.len() - suffix.len();
        assert(rest.subrange(rest.len() - suffix.len(), rest.len() as int) =~= uri@.subrange(
            end as int,
            end + suffix.len(),
        ));
        if !occurs_at_exec(&uri, &suffix, end) {
            return Err(OAuthError::InvalidRedirectUri(self.config.redirect_uri.clone()));
        }
        assert(rest.subrange(0, rest.len() - suffix.len()) =~= uri@.subrange(
            prefix.len() as int,
            end as int,
        ));
        match parse_port(&uri, prefix.len(), end) {
            Some(number) => Ok(number),
            None => Err(OAuthError::InvalidPort),
        }
    }

    /// Reads the parameters of a query.
    pub fn parse_query_params(query: &str) -> (params: QueryParams)
        ensures
            params@ == pairs_map(query_pairs(query@)),
    {
        let chars = to_chars(query);
        assert(chars@.subrange(0, chars.len() as int) =~= chars@);
        let pieces = split_exec(&chars, 0, chars.len(), '&');
        let ghost all = split(query@, '&');
        let equals: Vec<char> = vec!['='];
        assert(equals@ =~= seq!['=']);
        let mut pairs: Vec<(String, String)> = Vec::new();
        let mut i: usize = 0;
        assert(all.subrange(0, 0) =~= Seq::empty());
        assert(pairs.deep_view() =~= collect_pairs(all.subrange(0, 0)));
        while i < pieces.len()
            invariant
                i <= pieces.len(),
                chars@ == query@,
                equals@ == seq!['='],
                all == split(query@, '&'),
                pieces.len() == all.len(),
                forall|k: int|
                    0 <= k < pieces.len() ==> {
                        &&& (#[trigger] pieces[k]).0 <= pieces[k].1 <= chars.len()
                        &&& chars@.subrange(pieces[k].0 as int, pieces[k].1 as int) == all[k]
                    },
                pairs.deep_view() == collect_pairs(all.subrange(0, i as int)),
            decreases pieces.len() - i,
        {
            let ghost before = pairs.deep_view();
            assert(all.subrange(0, i + 1).drop_last() =~= all.subrange(0, i as int));
            assert(all.subrange(0, i + 1).last() == all[i as int]);
            let (start, end) = pieces[i];
            let piece = to_chars(query.substring_char(start, end));
            if let Some(at) = find_exec(&piece, &equals, 0) {
                let key = query.substring_char(start, start + at).to_owned();
                let value = query.substring_char(start + at + 1, end).to_owned();
                assert(key@ =~= piece@.subrange(0, at as int));
                assert(value@ =~= piece@.subrange(at + 1, piece.len() as int));
                pairs.push((key, value));
                assert(pairs.deep_view() =~= before.push((key@, value@)));
            }
            i += 1;
        }
        assert(all.subrange(0, all.len() as int) =~= all);
        QueryParams { pairs }
    }

    /// Reads the first line of the request that came in on the callback:
    /// the code in its query makes the credentials; an error in its query,
    /// a query with neither, another path or a line without a path is an
    /// error.
    pub fn handle_callback(&self, request_line: &str) -> (outcome: Result<
        OAuthCredentials,
        OAuthError,
    >)
        ensures
            match outcome {
                Ok(credentials) => callback_outcome(self.config().provider, request_line@) == Ok::<
                    OAuthCredentialsView,
                    OAuthErrorView,
                >(credentials@),
                Err(error) => callback_outcome(self.config().provider, request_line@) == Err::<
                    OAuthCredentialsView,
                    OAuthErrorView,
                >(error@),
            },
    {
        let line = to_chars(request_line);
        let (start, end) = match second_word_exec(&line) {
            Some(bounds) => bounds,
            None => { return Err(OAuthError::InvalidRequest); },
        };
        let path = request_line.substring_char(start, end);
        let path_chars = to_chars(path);
        let prefix = to_chars("/callback?");
        if !occurs_at_exec(&path_chars, &prefix, 0) {
            return Err(OAuthError::InvalidCallbackPath(path.to_owned()));
        }
        let query = path.substring_char(prefix.len(), path_chars.len());
        let params = OAuthHandler::parse_query_params(query);
        if let Some(code) = params.get("code") {
            return Ok(
                OAuthCredentials {
                    access_token: code.clone(),
                    refresh_token: None,
                    token_type: "Bearer".to_owned(),
                    expires_in: None,
                    provider: self.config.provider.clone(),
                },
            );
        }
        if let Some(error) = params.get("error") {
            return Err(OAuthError::Provider(error.clone()));
        }
        Err(OAuthError::MissingCode)
    }

    /// Whether a line of the request is the empty one that ends its
    /// headers: nothing but white space.
    pub fn is_blank_line(line: &str) -> (blank: bool)
        ensures
            blank == (trim(line@).len() == 0),
    {
        let chars = to_chars(line);
        assert(chars@.subrange(0, chars.len() as int) =~= chars@);
        let (start, end) = trim_exec(&chars, 0, chars.len());
        start == end
    }

    /// The response to a callback that went through.
    pub fn callback_response() -> (response: String)
        ensures
            response@ == success_response(),
    {
        let mut response =
            "HTTP/1.1 200 OK\r\nContent-Type: text/html\r\nContent-Length: ".to_owned();
        let length = to_decimal(SUCCESS_PAGE.as_bytes().len());
        response.append(length.as_str());
        response.append("\r\n\r\n");
        response.append(SUCCESS_PAGE);
        response
    }
}

} // verus!
