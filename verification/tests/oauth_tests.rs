use email_mcp::config::{Account, AppState, PendingAuth, Provider};
use email_mcp::json::Json;
use email_mcp::oauth::{
    access_token, account_from_token, apply_token, authorize_url, begin_oauth, callback_page,
    exchange_form, expiry_time, extract_auth_code, http_response, needs_refresh, oauth_scope,
    pkce_challenge, random_string, redirect_uri, refresh_request, start_oauth, token_url,
    user_email, OAuthError, TokenResponse,
};

fn obj(pairs: &[(&str, Json)]) -> Json {
    Json::Object(pairs.iter().map(|(k, v)| (k.to_string(), copy(v))).collect())
}

fn copy(j: &Json) -> Json {
    j.copy()
}

fn s(x: &str) -> Json {
    Json::Str(x.to_string())
}

fn gmail_account(refresh: Option<&str>, secret: Option<&str>) -> Account {
    Account {
        id: "work".into(),
        provider: Provider::Gmail,
        email: None,
        client_id: "cid".into(),
        client_secret: secret.map(|x| x.into()),
        access_token: Some("old".into()),
        refresh_token: refresh.map(|x| x.into()),
        expires_at: Some(100),
        icloud_password: None,
    }
}

#[test]
fn pkce_challenge_matches_rfc_7636_example() {
    assert_eq!(
        pkce_challenge("dBjftJeZ4CVP-mB92K27uhbUJU1p1r_wW1gFWFOEjXk"),
        "E9Melhoa2OwvFrEMTJguCHaoeK1t8URWbuGJSstw-cM"
    );
}

#[test]
fn random_string_has_length_and_alphabet() {
    for len in [0usize, 1, 10, 64] {
        let r = random_string(len);
        assert_eq!(r.chars().count(), len);
        assert!(r.chars().all(|c| c.is_ascii_alphanumeric() || c == '-' || c == '_'));
    }
    assert_ne!(random_string(64), random_string(64));
}

#[test]
fn redirect_uri_uses_port() {
    assert_eq!(redirect_uri(8080), "http://127.0.0.1:8080/callback");
    assert_eq!(redirect_uri(0), "http://127.0.0.1:0/callback");
}

#[test]
fn scopes_and_token_urls() {
    assert!(oauth_scope(Provider::Gmail).unwrap().contains("gmail.modify"));
    assert!(oauth_scope(Provider::Outlook).unwrap().ends_with("offline_access"));
    assert!(oauth_scope(Provider::ICloud).is_none());
    assert_eq!(token_url(Provider::Gmail), Some("https://oauth2.googleapis.com/token"));
    assert!(token_url(Provider::ICloud).is_none());
}

#[test]
fn authorize_url_for_gmail_is_encoded() {
    let u = authorize_url(Provider::Gmail, "my id", "http://127.0.0.1:5/callback", "CH").unwrap();
    assert_eq!(
        u,
        "https://accounts.google.com/o/oauth2/v2/auth?client_id=my%20id&redirect_uri=http%3A%2F%2F127.0.0.1%3A5%2Fcallback&response_type=code&scope=https%3A%2F%2Fwww.googleapis.com%2Fauth%2Fgmail.modify%20https%3A%2F%2Fwww.googleapis.com%2Fauth%2Fuserinfo.email&code_challenge=CH&code_challenge_method=S256&access_type=offline&prompt=consent"
    );
    assert!(authorize_url(Provider::ICloud, "x", "y", "z").is_none());
}

#[test]
fn authorize_url_for_outlook_has_no_prompt() {
    let u = authorize_url(Provider::Outlook, "abc", "r", "CH").unwrap();
    assert!(u.starts_with("https://login.microsoftonline.com/common/oauth2/v2.0/authorize?client_id=abc&redirect_uri=r&response_type=code&scope="));
    assert!(u.ends_with("&code_challenge=CH&code_challenge_method=S256"));
}

#[test]
fn begin_oauth_records_pending_and_gives_url() {
    let mut st = AppState::new(String::new(), vec![]);
    let r = begin_oauth(&mut st, Provider::Gmail, "work".into(), "cid".into(), None, "dBjftJeZ4CVP-mB92K27uhbUJU1p1r_wW1gFWFOEjXk".into(), 4242).unwrap();
    assert!(r.url.contains("code_challenge=E9Melhoa2OwvFrEMTJguCHaoeK1t8URWbuGJSstw-cM&"));
    assert!(r.url.contains("redirect_uri=http%3A%2F%2F127.0.0.1%3A4242%2Fcallback"));
    let p = st.take_pending_auth("work").unwrap();
    assert_eq!(p.redirect_uri, "http://127.0.0.1:4242/callback");
    assert_eq!(p.code_verifier, "dBjftJeZ4CVP-mB92K27uhbUJU1p1r_wW1gFWFOEjXk");
}

#[test]
fn oauth_refused_for_icloud() {
    let mut st = AppState::new(String::new(), vec![]);
    let r = start_oauth(&mut st, Provider::ICloud, "me".into(), "cid".into(), None, 1);
    match r {
        Err(e) => assert_eq!(e.message(), "iCloud uses app passwords, not OAuth"),
        Ok(_) => panic!("iCloud must be refused"),
    }
    assert!(st.pending_account_ids().is_empty());
}

#[test]
fn start_oauth_draws_a_verifier() {
    let mut st = AppState::new(String::new(), vec![]);
    let r = start_oauth(&mut st, Provider::Outlook, "o".into(), "cid".into(), Some("sec".into()), 9).unwrap();
    let p = st.take_pending_auth("o").unwrap();
    assert_eq!(p.code_verifier.len(), 64);
    assert!(r.url.contains(&pkce_challenge(&p.code_verifier)));
    assert_eq!(p.client_secret.as_deref(), Some("sec"));
}

#[test]
fn auth_code_from_callback_request() {
    assert_eq!(
        extract_auth_code("GET /callback?code=4%2F0Ab&scope=x HTTP/1.1\r\nHost: 127.0.0.1\r\n\r\n"),
        Some("4%2F0Ab".to_string())
    );
    assert_eq!(extract_auth_code("GET /callback?state=1&code=abc HTTP/1.1\r\n"), Some("abc".to_string()));
    assert_eq!(extract_auth_code("GET /callback?code=a=b HTTP/1.1"), Some("a=b".to_string()));
    assert_eq!(extract_auth_code("GET /callback?error=access_denied HTTP/1.1\r\n"), None);
    assert_eq!(extract_auth_code("GET /callback HTTP/1.1\r\n"), None);
    assert_eq!(extract_auth_code("GET"), None);
    assert_eq!(extract_auth_code(""), None);
    assert_eq!(extract_auth_code("GET /x?code HTTP/1.1"), None);
    assert_eq!(extract_auth_code("GET /x?a=1?code=2 HTTP/1.1"), None);
    assert_eq!(extract_auth_code("  GET   /x?code=z  HTTP/1.1"), Some("z".to_string()));
}

#[test]
fn callback_response_has_byte_length() {
    let page = callback_page(true);
    let r = http_response(page);
    assert!(r.starts_with("HTTP/1.1 200 OK\r\nContent-Type: text/html\r\nContent-Length: "));
    assert!(r.ends_with(&format!("Content-Length: {}\r\nConnection: close\r\n\r\n{}", page.len(), page)));
    assert!(callback_page(false).contains("No code received."));
}

#[test]
fn exchange_form_lists_fields() {
    let p = PendingAuth {
        account_id: "w".into(),
        code_verifier: "ver".into(),
        redirect_uri: "red".into(),
        provider: Provider::Gmail,
        client_id: "cid".into(),
        client_secret: Some("sec".into()),
    };
    let f = exchange_form(&p, "CODE");
    let pairs: Vec<(&str, &str)> = f.iter().map(|(a, b)| (a.as_str(), b.as_str())).collect();
    assert_eq!(
        pairs,
        vec![
            ("grant_type", "authorization_code"),
            ("client_id", "cid"),
            ("code", "CODE"),
            ("redirect_uri", "red"),
            ("code_verifier", "ver"),
            ("client_secret", "sec"),
        ]
    );
}

#[test]
fn refresh_request_errors_and_form() {
    match refresh_request(&gmail_account(None, None)) {
        Err(e) => assert_eq!(e.message(), "no refresh token for account 'work'"),
        Ok(_) => panic!(),
    }
    let mut ic = gmail_account(Some("r"), None);
    ic.provider = Provider::ICloud;
    match refresh_request(&ic) {
        Err(OAuthError::ICloudHasNoTokens) => {}
        _ => panic!(),
    }
    let (url, form) = refresh_request(&gmail_account(Some("r"), Some("s"))).unwrap();
    assert_eq!(url, "https://oauth2.googleapis.com/token");
    assert_eq!(form.len(), 4);
    assert_eq!(form[2], ("refresh_token".to_string(), "r".to_string()));
    assert_eq!(form[3], ("client_secret".to_string(), "s".to_string()));
}

#[test]
fn applying_a_token_keeps_old_refresh_token() {
    let mut a = gmail_account(Some("keep"), None);
    apply_token(&mut a, TokenResponse { access_token: "new".into(), refresh_token: None, expires_in: None }, 1000);
    assert_eq!(a.access_token.as_deref(), Some("new"));
    assert_eq!(a.refresh_token.as_deref(), Some("keep"));
    assert_eq!(a.expires_at, Some(4600));
    apply_token(&mut a, TokenResponse { access_token: "n2".into(), refresh_token: Some("r2".into()), expires_in: Some(10) }, 0);
    assert_eq!(a.refresh_token.as_deref(), Some("r2"));
    assert_eq!(a.expires_at, Some(10));
    assert!(!needs_refresh(&a, -100));
    assert!(needs_refresh(&a, 0));
}

#[test]
fn needs_refresh_cases() {
    let mut a = gmail_account(None, None);
    a.expires_at = None;
    assert!(needs_refresh(&a, 0));
    a.expires_at = Some(1000);
    assert!(!needs_refresh(&a, 900));
    assert!(needs_refresh(&a, 941));
    a.access_token = None;
    assert!(needs_refresh(&a, 0));
    assert_eq!(access_token(&a), Err("account 'work' is not authenticated".to_string()));
}

#[test]
fn account_from_token_fields() {
    let p = PendingAuth {
        account_id: "w".into(),
        code_verifier: "v".into(),
        redirect_uri: "r".into(),
        provider: Provider::Outlook,
        client_id: "c".into(),
        client_secret: None,
    };
    let a = account_from_token(p, TokenResponse { access_token: "at".into(), refresh_token: Some("rt".into()), expires_in: Some(60) }, Some("me@x".into()), 5);
    assert_eq!(a.id, "w");
    assert_eq!(a.provider, Provider::Outlook);
    assert_eq!(a.expires_at, Some(65));
    assert_eq!(a.email.as_deref(), Some("me@x"));
    assert_eq!(expiry_time(1, None), 3601);
}

#[test]
fn user_email_fallbacks() {
    let info = obj(&[("email", s("a@gmail.com"))]);
    assert_eq!(user_email(Provider::Gmail, &info).unwrap(), "a@gmail.com");
    assert_eq!(user_email(Provider::Gmail, &Json::Null).unwrap(), "unknown");
    let o = obj(&[("mail", Json::Null), ("userPrincipalName", s("u@corp"))]);
    assert_eq!(user_email(Provider::Outlook, &o).unwrap(), "u@corp");
    let o2 = obj(&[("mail", s("m@corp")), ("userPrincipalName", s("u@corp"))]);
    assert_eq!(user_email(Provider::Outlook, &o2).unwrap(), "m@corp");
    assert_eq!(user_email(Provider::Outlook, &obj(&[])).unwrap(), "unknown");
    assert!(matches!(user_email(Provider::ICloud, &info), Err(OAuthError::NotApplicable)));
}
