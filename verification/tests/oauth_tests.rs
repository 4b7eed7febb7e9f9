use zeroclaw::number::{parse_port, to_decimal, to_lower_hex};
use zeroclaw::oauth::{
    OAuthConfig, OAuthCredentials, OAuthError, OAuthHandler, SUCCESS_PAGE,
};

#[test]
fn oauth_config_qwen_has_correct_fields() {
    let config = OAuthConfig::qwen();
    assert_eq!(config.provider, "qwen");
    assert!(config.auth_url.contains("dashscope"));
    assert_eq!(config.redirect_uri, "http://localhost:8080/callback");
}

#[test]
fn oauth_state_generate_state_is_unique() {
    let state1 = OAuthConfig::generate_state();
    let begin = std::time::Instant::now();
    while begin.elapsed() < std::time::Duration::from_millis(10) {
        std::hint::spin_loop();
    }
    let state2 = OAuthConfig::generate_state();
    assert_ne!(state1, state2);
}

#[test]
fn parse_query_params_handles_valid_input() {
    let query = "code=test_code&state=test_state";
    let params = OAuthHandler::parse_query_params(query);
    assert_eq!(params.get("code"), Some(&"test_code".to_string()));
    assert_eq!(params.get("state"), Some(&"test_state".to_string()));
}

#[test]
fn parse_query_params_handles_empty() {
    let query = "";
    let params = OAuthHandler::parse_query_params(query);
    assert!(params.is_empty());
}

#[test]
fn qwen_has_every_field() {
    let config = OAuthConfig::qwen();
    assert_eq!(
        config,
        OAuthConfig {
            provider: "qwen".to_string(),
            auth_url: "https://dashscope.aliyuncs.com/authorizations".to_string(),
            token_url: "https://dashscope.aliyuncs.com/authorizations/oauth/token".to_string(),
            client_id: "zeroclaw".to_string(),
            client_secret: None,
            scopes: vec!["openid".to_string(), "profile".to_string()],
            redirect_uri: "http://localhost:8080/callback".to_string(),
        }
    );
}

#[test]
fn a_query_keeps_the_later_value_and_skips_pieces_without_a_sign() {
    let params = OAuthHandler::parse_query_params("a=1&b&a=2&&c==x=&=v&d=");
    assert_eq!(params.get("a"), Some(&"2".to_string()));
    assert_eq!(params.get("b"), None);
    assert_eq!(params.get("c"), Some(&"=x=".to_string()));
    assert_eq!(params.get(""), Some(&"v".to_string()));
    assert_eq!(params.get("d"), Some(&String::new()));
    assert!(!params.is_empty());
    assert!(OAuthHandler::parse_query_params("abc&def").is_empty());
    assert!(OAuthHandler::parse_query_params("&&&").is_empty());
    let params = OAuthHandler::parse_query_params("k\u{e9}y=v\u{e4}l%20ue");
    assert_eq!(params.get("k\u{e9}y"), Some(&"v\u{e4}l%20ue".to_string()));
}

#[test]
fn the_state_token_is_the_clock_in_hexadecimal() {
    let state = OAuthConfig::generate_state();
    assert!(!state.is_empty());
    assert!(state.chars().all(|c| c.is_ascii_digit() || ('a'..='f').contains(&c)));
    assert!(state == "0" || !state.starts_with('0'));
    assert_eq!(OAuthConfig::state_token(0), "0");
    assert_eq!(OAuthConfig::state_token(255), "ff");
    assert_eq!(OAuthConfig::state_token(0x1234_5678_9abc_def0), "123456789abcdef0");
    assert_eq!(OAuthConfig::state_token(u128::MAX), "f".repeat(32));
    for n in [1u128, 9, 10, 15, 16, 17, 4095, 4096, 1_700_000_000_000_000_000] {
        assert_eq!(to_lower_hex(n), format!("{:x}", n));
    }
}

#[test]
fn numbers_are_written_in_decimal() {
    for n in [0usize, 1, 9, 10, 11, 99, 100, 228, 65535, 1_000_000] {
        assert_eq!(to_decimal(n), n.to_string());
    }
    assert_eq!(to_decimal(usize::MAX), usize::MAX.to_string());
}

#[test]
fn parameters_are_joined_and_their_values_encoded() {
    let params = vec![
        ("a".to_string(), "x y".to_string()),
        ("b".to_string(), "http://h:1/p?q=1&r=2".to_string()),
        ("c d".to_string(), "Az09-._~".to_string()),
        ("e".to_string(), "\u{e9}\u{1f47e}".to_string()),
        ("f".to_string(), String::new()),
    ];
    assert_eq!(
        OAuthConfig::form_encode(&params),
        "a=x%20y&b=http%3A%2F%2Fh%3A1%2Fp%3Fq%3D1%26r%3D2&c d=Az09-._~&e=%C3%A9%F0%9F%91%BE&f="
    );
    assert_eq!(OAuthConfig::form_encode(&vec![]), "");
    assert_eq!(OAuthConfig::form_encode(&vec![("k".to_string(), "v".to_string())]), "k=v");
}

#[test]
fn the_authorization_url_holds_the_five_parameters_in_order() {
    let config = OAuthConfig::qwen();
    assert_eq!(
        config.auth_url_for("abc123"),
        "https://dashscope.aliyuncs.com/authorizations?client_id=zeroclaw&redirect_uri=http%3A%2F%2Flocalhost%3A8080%2Fcallback&response_type=code&scope=openid%20profile&state=abc123"
    );
    let url = config.get_auth_url().unwrap();
    let prefix = "https://dashscope.aliyuncs.com/authorizations?client_id=zeroclaw&redirect_uri=http%3A%2F%2Flocalhost%3A8080%2Fcallback&response_type=code&scope=openid%20profile&state=";
    assert!(url.starts_with(prefix));
    let state = &url[prefix.len()..];
    assert!(!state.is_empty());
    assert!(state.chars().all(|c| c.is_ascii_digit() || ('a'..='f').contains(&c)));
    let bare = OAuthConfig {
        provider: "p".to_string(),
        auth_url: "u".to_string(),
        token_url: String::new(),
        client_id: "i d".to_string(),
        client_secret: Some("s".to_string()),
        scopes: vec![],
        redirect_uri: String::new(),
    };
    assert_eq!(
        bare.auth_url_for("s&t"),
        "u?client_id=i%20d&redirect_uri=&response_type=code&scope=&state=s%26t"
    );
}

fn handler_for(redirect_uri: &str) -> OAuthHandler {
    let mut config = OAuthConfig::qwen();
    config.redirect_uri = redirect_uri.to_string();
    OAuthHandler::new(config)
}

#[test]
fn the_port_is_that_of_the_redirect_uri() {
    assert_eq!(OAuthHandler::new(OAuthConfig::qwen()).extract_port(), Ok(8080));
    assert_eq!(handler_for("http://localhost:0/callback").extract_port(), Ok(0));
    assert_eq!(handler_for("http://localhost:65535/callback").extract_port(), Ok(65535));
    assert_eq!(handler_for("http://localhost:+80/callback").extract_port(), Ok(80));
    assert_eq!(handler_for("http://localhost:00080/callback").extract_port(), Ok(80));
    assert_eq!(
        handler_for("http://localhost:65536/callback").extract_port(),
        Err(OAuthError::InvalidPort)
    );
    assert_eq!(handler_for("http://localhost:/callback").extract_port(), Err(OAuthError::InvalidPort));
    assert_eq!(
        handler_for("http://localhost:80a/callback").extract_port(),
        Err(OAuthError::InvalidPort)
    );
    assert_eq!(
        handler_for("http://localhost:-1/callback").extract_port(),
        Err(OAuthError::InvalidPort)
    );
    assert_eq!(
        handler_for("http://localhost: 80/callback").extract_port(),
        Err(OAuthError::InvalidPort)
    );
    for uri in [
        "https://localhost:8080/callback",
        "http://localhost:8080/callback/",
        "http://localhost:8080",
        "http://localhost:/callbac",
        "http://localhost:callback",
        "http://example.com:8080/callback",
        "",
    ] {
        assert_eq!(
            handler_for(uri).extract_port(),
            Err(OAuthError::InvalidRedirectUri(uri.to_string()))
        );
    }
}

#[test]
fn a_port_is_read_as_the_standard_library_reads_it() {
    let samples = [
        "", "+", "-", "0", "+0", "-0", "1", "80", "8080", "65535", "65536", "99999", "+65535",
        "++1", "+-1", "1+", " 1", "1 ", "1_000", "0x10", "000000000000000000000001",
        "00000000000000000065536", "4294967296", "18446744073709551616", "12a", "\u{663}",
        "\u{ff11}", "6553\u{e9}",
    ];
    for sample in samples {
        let chars: Vec<char> = sample.chars().collect();
        assert_eq!(parse_port(&chars, 0, chars.len()), sample.parse::<u16>().ok());
    }
    let chars: Vec<char> = "ab123cd".chars().collect();
    assert_eq!(parse_port(&chars, 2, 5), Some(123));
    assert_eq!(parse_port(&chars, 2, 6), None);
    assert_eq!(parse_port(&chars, 3, 3), None);
}

#[test]
fn a_callback_with_a_code_gives_credentials() {
    let handler = OAuthHandler::new(OAuthConfig::qwen());
    assert_eq!(
        handler.handle_callback("GET /callback?code=abc&state=xyz HTTP/1.1\r\n"),
        Ok(OAuthCredentials {
            access_token: "abc".to_string(),
            refresh_token: None,
            token_type: "Bearer".to_string(),
            expires_in: None,
            provider: "qwen".to_string(),
        })
    );
    assert_eq!(
        handler.handle_callback("  GET\t/callback?error=denied&code=c1&code=c2"),
        Ok(OAuthCredentials {
            access_token: "c2".to_string(),
            refresh_token: None,
            token_type: "Bearer".to_string(),
            expires_in: None,
            provider: "qwen".to_string(),
        })
    );
}

#[test]
fn a_callback_without_a_code_is_an_error() {
    let handler = OAuthHandler::new(OAuthConfig::qwen());
    assert_eq!(
        handler.handle_callback("GET /callback?error=access_denied HTTP/1.1"),
        Err(OAuthError::Provider("access_denied".to_string()))
    );
    assert_eq!(
        handler.handle_callback("GET /callback?state=xyz HTTP/1.1"),
        Err(OAuthError::MissingCode)
    );
    assert_eq!(handler.handle_callback("GET /callback? HTTP/1.1"), Err(OAuthError::MissingCode));
    assert_eq!(
        handler.handle_callback("GET /callback HTTP/1.1"),
        Err(OAuthError::InvalidCallbackPath("/callback".to_string()))
    );
    assert_eq!(
        handler.handle_callback("GET /favicon.ico HTTP/1.1"),
        Err(OAuthError::InvalidCallbackPath("/favicon.ico".to_string()))
    );
    assert_eq!(handler.handle_callback("GET"), Err(OAuthError::InvalidRequest));
    assert_eq!(handler.handle_callback("GET   \r\n"), Err(OAuthError::InvalidRequest));
    assert_eq!(handler.handle_callback(""), Err(OAuthError::InvalidRequest));
    assert_eq!(handler.handle_callback(" \t\r\n"), Err(OAuthError::InvalidRequest));
}

#[test]
fn errors_have_their_words() {
    assert_eq!(
        OAuthError::InvalidRedirectUri("ftp://x".to_string()).message(),
        "Invalid redirect_uri format: ftp://x"
    );
    assert_eq!(OAuthError::InvalidPort.message(), "Invalid port in redirect_uri");
    assert_eq!(OAuthError::InvalidRequest.message(), "Invalid HTTP request");
    assert_eq!(
        OAuthError::InvalidCallbackPath("/x".to_string()).message(),
        "Invalid callback path: /x"
    );
    assert_eq!(OAuthError::Provider("denied".to_string()).message(), "OAuth error: denied");
    assert_eq!(OAuthError::MissingCode.message(), "No code in OAuth callback");
}

#[test]
fn the_headers_end_at_a_blank_line() {
    assert!(OAuthHandler::is_blank_line(""));
    assert!(OAuthHandler::is_blank_line("\r\n"));
    assert!(OAuthHandler::is_blank_line(" \t \n"));
    assert!(!OAuthHandler::is_blank_line("Host: localhost\r\n"));
    assert!(!OAuthHandler::is_blank_line(" x "));
}

#[test]
fn the_response_carries_the_page_and_its_length() {
    let page = "<!DOCTYPE html>
<html>
<head><title>Authentication Successful</title></head>
<body>
    <h1>Authentication Successful!</h1>
    <p>You can close this window and return to ZeroClaw.</p>
    <script>window.close();</script>
</body>
</html>";
    assert_eq!(SUCCESS_PAGE, page);
    assert_eq!(
        OAuthHandler::callback_response(),
        format!(
            "HTTP/1.1 200 OK\r\nContent-Type: text/html\r\nContent-Length: {}\r\n\r\n{}",
            page.len(),
            page
        )
    );
}
