use debrid_gateway::exchange::{HtmlReply, Payload, ProviderReply, RedirectReply};
use debrid_gateway::json::{escape_for_script, Json};
use debrid_gateway::premiumize::{
    escape_for_html, premiumize_authorize, premiumize_authorize_with_state,
    premiumize_oauth2_redirect, premiumize_oauth2_redirect_reply, premiumize_oauth_error_page,
    premiumize_oauth_redirect_uri, premiumize_oauth_result_page, premiumize_oauth_success_page,
    PremiumizeAuthorizeQuery, PremiumizeConfig, PremiumizeOAuthRedirectQuery,
};

fn config(id: Option<&str>, secret: Option<&str>) -> PremiumizeConfig {
    PremiumizeConfig {
        host_url: "https://gw.example".to_string(),
        oauth_client_id: id.map(|s| s.to_string()),
        oauth_client_secret: secret.map(|s| s.to_string()),
    }
}

fn query(
    code: Option<&str>,
    state: Option<&str>,
    error: Option<&str>,
    description: Option<&str>,
) -> PremiumizeOAuthRedirectQuery {
    PremiumizeOAuthRedirectQuery {
        code: code.map(|s| s.to_string()),
        state: state.map(|s| s.to_string()),
        error: error.map(|s| s.to_string()),
        error_description: description.map(|s| s.to_string()),
    }
}

fn same_page(one: &HtmlReply, other: &HtmlReply) -> bool {
    one.status == other.status
        && one.content_type == other.content_type
        && one.cache_control == other.cache_control
        && one.body == other.body
}

fn token_reply(members: &[(&str, Json)]) -> ProviderReply {
    let members = members
        .iter()
        .map(|(k, v)| {
            let value = match v {
                Json::Text(t) => Json::Text(t.clone()),
                _ => Json::Null,
            };
            (k.to_string(), value)
        })
        .collect();
    ProviderReply::Answered {
        status: 200,
        body: Json::Object(members),
    }
}

fn location(reply: RedirectReply) -> String {
    match reply {
        RedirectReply::Location { status, location } => {
            assert_eq!(status, 307);
            location
        }
        RedirectReply::Unsendable { text, .. } => panic!("{text}"),
    }
}

fn text(s: &str) -> Json {
    Json::Text(s.to_string())
}

#[test]
fn redirect_uri_is_on_the_host() {
    assert_eq!(
        premiumize_oauth_redirect_uri("https://gw.example"),
        "https://gw.example/streaming_provider/premiumize/oauth2_redirect"
    );
}

#[test]
fn success_page_in_full() {
    let page = premiumize_oauth_success_page(Some("s1"), "tok");
    assert_eq!(page.status, 200);
    assert_eq!(page.content_type, "text/html; charset=utf-8");
    assert_eq!(page.cache_control, "no-store");
    assert_eq!(
        page.body,
        "<!DOCTYPE html><html><head><title>Premiumize Authorized</title></head>\
         <body><h1>Premiumize authorized</h1><p>Your Premiumize credentials were sent to the \
         configuration page. This tab will close automatically.</p>\
         <p>If this tab does not close, return to Configure and try again.</p>\
         <script>\
         const result = {\"error\":null,\"state\":\"s1\",\"status\":\"success\",\
         \"token\":\"tok\",\"type\":\"mediafusion:premiumize-oauth\"};\
         const deliver = () => {\
         if (window.opener && !window.opener.closed) {\
         window.opener.postMessage(result, '*');\
         }\
         };\
         deliver();\
         window.setInterval(deliver, 500);\
         </script></body></html>"
    );
}

#[test]
fn error_page_escapes_what_it_shows() {
    let page = premiumize_oauth_error_page(None, "a<b> & \"c\"\n");
    assert!(page
        .body
        .contains("<title>Premiumize Authorization Failed</title>"));
    assert!(page
        .body
        .contains("<h1>Premiumize authorization failed</h1>"));
    assert!(page
        .body
        .contains("<p>a&lt;b&gt; &amp; &quot;c&quot;\n</p>"));
    assert!(page.body.contains(
        "const result = {\"error\":\"a\\u003cb\\u003e \\u0026 \\\"c\\\"\\n\",\"state\":\"\",\
         \"status\":\"error\",\"token\":null,\"type\":\"mediafusion:premiumize-oauth\"};"
    ));
}

#[test]
fn script_is_not_closed_by_a_state() {
    let page = premiumize_oauth_success_page(Some("</script><script>alert(1)"), "t");
    assert_eq!(page.body.matches("</script>").count(), 1);
    assert_eq!(page.body.matches("<script>").count(), 1);
    assert!(page
        .body
        .contains("\"state\":\"\\u003c/script\\u003e\\u003cscript\\u003ealert(1)\""));
}

#[test]
fn message_escapes_control_characters() {
    let page = premiumize_oauth_success_page(Some("\u{8}\t\n\u{c}\r\u{1}\u{1f}\\\u{7f}é"), "t");
    assert!(page
        .body
        .contains("\"state\":\"\\b\\t\\n\\f\\r\\u0001\\u001f\\\\\u{7f}é\""));
}

#[test]
fn embedded_message_reads_back() {
    let state = "<&>\"\\\u{1}é</script>";
    let page = premiumize_oauth_success_page(Some(state), "t");
    let start = page.body.find("const result = ").unwrap() + "const result = ".len();
    let end = page.body.find(";const deliver").unwrap();
    let value: serde_json::Value = serde_json::from_str(&page.body[start..end]).unwrap();
    assert_eq!(value["state"].as_str(), Some(state));
    assert_eq!(value["token"].as_str(), Some("t"));
    assert!(value["error"].is_null());
}

#[test]
fn page_without_token_or_error_has_a_default_sentence() {
    let page = premiumize_oauth_result_page(None, None, None);
    assert!(page.body.contains("<p>Premiumize authorization failed.</p>"));
    assert!(page.body.contains("{\"error\":null,\"state\":\"\",\"status\":\"error\",\"token\":null,"));
}

#[test]
fn token_outweighs_an_error_on_the_page() {
    let page = premiumize_oauth_result_page(None, Some("t"), Some("e"));
    assert!(page.body.contains("<h1>Premiumize authorized</h1>"));
    assert!(page
        .body
        .contains("{\"error\":\"e\",\"state\":\"\",\"status\":\"success\",\"token\":\"t\","));
}

#[test]
fn escapes() {
    assert_eq!(escape_for_html("&<>\"'x"), "&amp;&lt;&gt;&quot;'x");
    assert_eq!(escape_for_html("&lt;"), "&amp;lt;");
    assert_eq!(escape_for_script("&<>\"x"), "\\u0026\\u003c\\u003e\"x");
}

#[test]
fn authorize_needs_a_client_id() {
    for id in [None, Some("")] {
        let refusal = premiumize_authorize(
            &config(id, None),
            &PremiumizeAuthorizeQuery { state: None },
        )
        .err()
        .unwrap();
        assert_eq!(refusal.status, 503);
        assert_eq!(
            refusal.body.text_of("detail"),
            Some("Premiumize OAuth client ID not configured. Set PREMIUMIZE_OAUTH_CLIENT_ID environment variable.")
        );
    }
}

#[test]
fn authorize_redirects_with_the_given_state() {
    let redirect = premiumize_authorize(
        &config(Some("id 1"), None),
        &PremiumizeAuthorizeQuery {
            state: Some("a b&c=é~".to_string()),
        },
    )
    .ok()
    .unwrap();
    assert_eq!(
        location(redirect),
        "https://www.premiumize.me/authorize?client_id=id 1&response_type=code&redirect_uri=\
         https%3A%2F%2Fgw.example%2Fstreaming_provider%2Fpremiumize%2Foauth2_redirect\
         &state=a%20b%26c%3D%C3%A9~"
    );
    let plain = premiumize_authorize_with_state("id", "h", "s-._~0Az");
    assert!(location(plain).ends_with("&state=s-._~0Az"));
}

#[test]
fn client_id_with_a_control_character_spoils_the_redirect() {
    for id in ["a\nb", "\r", "\0", "\u{1f}", "x\u{7f}"] {
        let reply = premiumize_authorize(
            &config(Some(id), None),
            &PremiumizeAuthorizeQuery { state: None },
        );
        match reply.ok().unwrap() {
            RedirectReply::Unsendable { status, text } => {
                assert_eq!(status, 500);
                assert_eq!(text, "failed to parse header value");
            }
            RedirectReply::Location { .. } => panic!("the address holds a control character"),
        }
    }
}

#[test]
fn redirects_are_sent_where_the_header_takes_the_address() {
    for id in ["a\tb", " ", "~", "\u{80}", "é", "a\nb", "\u{7f}"] {
        let sent = match premiumize_authorize_with_state(id, "h\n", "s\n") {
            RedirectReply::Location { location, .. } => {
                assert!(axum::http::HeaderValue::try_from(location).is_ok());
                true
            }
            RedirectReply::Unsendable { text, .. } => {
                let error = axum::http::HeaderValue::try_from(id.to_string()).unwrap_err();
                assert_eq!(text, error.to_string());
                false
            }
        };
        assert_eq!(
            sent,
            axum::http::HeaderValue::try_from(id.to_string()).is_ok()
        );
    }
}

#[test]
fn authorize_makes_up_a_state() {
    let mut seen = Vec::new();
    for state in [None, Some(String::new())] {
        let redirect = premiumize_authorize(
            &config(Some("id"), None),
            &PremiumizeAuthorizeQuery { state },
        )
        .ok()
        .unwrap();
        let address = location(redirect);
        let start = address.find("&state=").unwrap() + "&state=".len();
        let made = address[start..].to_string();
        assert_eq!(made.len(), 32);
        assert!(made.chars().all(|c| matches!(c, '0'..='9' | 'a'..='f')));
        assert_eq!(made.as_bytes()[12], b'4');
        assert!(matches!(made.as_bytes()[16], b'8' | b'9' | b'a' | b'b'));
        seen.push(made);
    }
    assert_ne!(seen[0], seen[1]);
}

#[test]
fn return_with_an_error_is_turned_away() {
    let full = config(Some("id"), Some("secret"));
    let page = premiumize_oauth2_redirect(
        &full,
        &query(Some("c"), Some("s"), Some("denied"), Some("No way")),
    )
    .err()
    .unwrap();
    assert!(same_page(
        &page,
        &premiumize_oauth_error_page(Some("s"), "Premiumize authorization failed: No way")
    ));
    for description in [None, Some("")] {
        let page =
            premiumize_oauth2_redirect(&full, &query(Some("c"), None, Some("denied"), description))
                .err()
                .unwrap();
        assert!(same_page(
            &page,
            &premiumize_oauth_error_page(None, "Premiumize authorization failed: denied")
        ));
    }
}

#[test]
fn return_without_a_code_is_turned_away() {
    for code in [None, Some("")] {
        let page = premiumize_oauth2_redirect(
            &config(Some("id"), Some("secret")),
            &query(code, Some("s"), Some(""), Some("ignored")),
        )
        .err()
        .unwrap();
        assert!(same_page(
            &page,
            &premiumize_oauth_error_page(
                Some("s"),
                "Missing authorization code from Premiumize."
            )
        ));
    }
}

#[test]
fn unconfigured_gateway_asks_for_no_token() {
    for (id, secret) in [
        (None, Some("secret")),
        (Some("id"), None),
        (Some(""), Some("secret")),
        (Some("id"), Some("")),
    ] {
        let page =
            premiumize_oauth2_redirect(&config(id, secret), &query(Some("c"), None, None, None))
                .err()
                .unwrap();
        assert!(same_page(
            &page,
            &premiumize_oauth_error_page(
                None,
                "Premiumize OAuth is not configured on this server. Set PREMIUMIZE_OAUTH_CLIENT_ID and PREMIUMIZE_OAUTH_CLIENT_SECRET."
            )
        ));
    }
}

#[test]
fn return_with_a_code_asks_for_a_token() {
    let request = premiumize_oauth2_redirect(
        &config(Some("id"), Some("secret")),
        &query(Some("c"), Some("s"), None, None),
    )
    .ok()
    .unwrap();
    assert_eq!(request.provider, "premiumize");
    assert_eq!(request.url, "https://www.premiumize.me/token");
    match request.payload {
        Payload::Form(form) => {
            let form: Vec<(&str, &str)> =
                form.iter().map(|(k, v)| (k.as_str(), v.as_str())).collect();
            assert_eq!(
                form,
                vec![
                    ("client_id", "id"),
                    ("client_secret", "secret"),
                    ("code", "c"),
                    ("grant_type", "authorization_code"),
                    (
                        "redirect_uri",
                        "https://gw.example/streaming_provider/premiumize/oauth2_redirect"
                    ),
                ]
            );
        }
        _ => panic!("a form is sent"),
    }
}

#[test]
fn token_replies_that_fail() {
    let cases = [
        (
            ProviderReply::Unreachable,
            "Failed to contact Premiumize. Please try again.",
        ),
        (ProviderReply::Unreadable, "Invalid response from Premiumize."),
        (
            token_reply(&[("error", text("invalid_grant"))]),
            "That Premiumize login link expired or was already used. Open Configure and connect Premiumize again.",
        ),
        (
            token_reply(&[("error", text("invalid_client")), ("access_token", text("t"))]),
            "Premiumize OAuth client credentials are invalid. Check Premiumize OAuth settings on the server.",
        ),
        (token_reply(&[("error", text("odd"))]), "odd"),
        (
            token_reply(&[("access_token", text(""))]),
            "Premiumize authorization completed, but no access token was returned.",
        ),
        (
            token_reply(&[("error", Json::Null)]),
            "Premiumize authorization completed, but no access token was returned.",
        ),
    ];
    for (reply, message) in cases {
        let failure = premiumize_oauth2_redirect_reply(Some("s"), &reply)
            .err()
            .unwrap();
        assert_eq!(failure.message, message);
        assert!(same_page(
            &failure.page,
            &premiumize_oauth_error_page(Some("s"), message)
        ));
    }
}

#[test]
fn token_reply_gives_the_access_token() {
    let token =
        premiumize_oauth2_redirect_reply(None, &token_reply(&[("access_token", text("T"))]));
    assert_eq!(token.ok(), Some("T".to_string()));
    let token = premiumize_oauth2_redirect_reply(
        None,
        &ProviderReply::Answered {
            status: 500,
            body: Json::Object(vec![("access_token".to_string(), text("T"))]),
        },
    );
    assert_eq!(token.ok(), Some("T".to_string()));
}
