use debrid_gateway::device_auth::{
    debridlink_authorize, debridlink_authorize_reply, debridlink_get_device_code,
    debridlink_get_device_code_reply, realdebrid_authorize, realdebrid_authorize_reply,
    realdebrid_get_device_code, realdebrid_get_device_code_reply,
};
use debrid_gateway::exchange::{text_object, Payload, ProviderReply};
use debrid_gateway::json::Json;

fn object(pairs: &[(&str, &str)]) -> Json {
    Json::Object(
        pairs
            .iter()
            .map(|(k, v)| (k.to_string(), Json::Text(v.to_string())))
            .collect(),
    )
}

fn answered(status: u16, body: Json) -> ProviderReply {
    ProviderReply::Answered { status, body }
}

#[test]
fn realdebrid_device_code_request() {
    let request = realdebrid_get_device_code("CLIENT1");
    assert_eq!(request.provider, "realdebrid");
    assert_eq!(
        request.url,
        "https://api.real-debrid.com/oauth/v2/device/code?client_id=CLIENT1&new_credentials=yes"
    );
    assert!(matches!(request.payload, Payload::Nothing));
}

#[test]
fn realdebrid_device_code_replies() {
    let passed = realdebrid_get_device_code_reply(answered(403, object(&[("error", "x")])));
    assert_eq!(passed.status, 403);
    assert_eq!(passed.body, object(&[("error", "x")]));
    let odd = realdebrid_get_device_code_reply(answered(99, Json::Null));
    assert_eq!((odd.status, odd.body), (200, Json::Null));
    let odd = realdebrid_get_device_code_reply(answered(1000, Json::Null));
    assert_eq!(odd.status, 200);
    assert_eq!(
        realdebrid_get_device_code_reply(answered(999, Json::Null)).status,
        999
    );
    let unreadable = realdebrid_get_device_code_reply(ProviderReply::Unreadable);
    assert_eq!(unreadable.status, 502);
    assert_eq!(
        unreadable.body,
        object(&[("detail", "Invalid response from Real-Debrid")])
    );
    let unreachable = realdebrid_get_device_code_reply(ProviderReply::Unreachable);
    assert_eq!(unreachable.status, 502);
    assert_eq!(
        unreachable.body,
        object(&[("detail", "Failed to contact Real-Debrid")])
    );
}

#[test]
fn request_without_device_code_is_refused() {
    let bodies = [
        Json::Null,
        Json::Bool(true),
        Json::Unsigned(7),
        Json::Text("device_code".to_string()),
        Json::Array(vec![Json::Text("device_code".to_string())]),
        Json::Object(vec![]),
        object(&[("code", "abc")]),
        Json::Object(vec![("device_code".to_string(), Json::Unsigned(7))]),
        Json::Object(vec![("device_code".to_string(), Json::Null)]),
    ];
    for body in bodies {
        let refusal = realdebrid_authorize(&body).err().unwrap();
        assert_eq!(refusal.status, 422);
        assert_eq!(refusal.body, object(&[("detail", "Missing device_code")]));
        let refusal = debridlink_authorize(&body).err().unwrap();
        assert_eq!(refusal.status, 422);
        assert_eq!(refusal.body, object(&[("detail", "Missing device_code")]));
    }
}

#[test]
fn realdebrid_authorizes_the_given_code() {
    let code = realdebrid_authorize(&object(&[("x", "y"), ("device_code", "D1")]));
    assert_eq!(code.ok().unwrap(), "D1");
    // An empty code is a code.
    assert_eq!(
        realdebrid_authorize(&object(&[("device_code", "")])).ok(),
        Some(String::new())
    );
}

#[test]
fn realdebrid_outcomes_are_answered_with_success() {
    let done = realdebrid_authorize_reply(Ok(object(&[("token", "t")])));
    assert_eq!(done.status, 200);
    assert_eq!(done.body, object(&[("token", "t")]));
    let failed = realdebrid_authorize_reply(Err("pending".to_string()));
    assert_eq!(failed.status, 200);
    assert_eq!(
        failed.body,
        object(&[("error", "pending"), ("message", "pending")])
    );
}

#[test]
fn debridlink_device_code_request() {
    let request = debridlink_get_device_code();
    assert_eq!(request.provider, "debridlink");
    assert_eq!(
        request.url,
        "https://debrid-link.com/api/oauth/device/code"
    );
    match request.payload {
        Payload::Json(body) => assert_eq!(
            body,
            object(&[
                ("client_id", "RyrV22FOg30DsxjYPziRKA"),
                (
                    "scope",
                    "get.post.downloader get.post.seedbox get.account get.files get.post.stream"
                ),
            ])
        ),
        _ => panic!("a JSON payload is sent"),
    }
}

#[test]
fn debridlink_device_code_replies() {
    let passed = debridlink_get_device_code_reply(answered(201, Json::Bool(true)));
    assert_eq!((passed.status, passed.body), (201, Json::Bool(true)));
    let unreadable = debridlink_get_device_code_reply(ProviderReply::Unreadable);
    assert_eq!(unreadable.status, 502);
    assert_eq!(
        unreadable.body,
        object(&[("detail", "Invalid response from DebridLink")])
    );
    let unreachable = debridlink_get_device_code_reply(ProviderReply::Unreachable);
    assert_eq!(unreachable.status, 502);
    assert_eq!(
        unreachable.body,
        object(&[("detail", "Failed to contact DebridLink")])
    );
}

#[test]
fn debridlink_token_request_carries_the_code() {
    let request = debridlink_authorize(&object(&[("device_code", "D2")]))
        .ok()
        .unwrap();
    assert_eq!(request.provider, "debridlink");
    assert_eq!(request.url, "https://debrid-link.com/api/oauth/token");
    match request.payload {
        Payload::Json(body) => assert_eq!(
            body,
            object(&[
                ("client_id", "RyrV22FOg30DsxjYPziRKA"),
                ("code", "D2"),
                ("grant_type", "http://oauth.net/grant_type/device/1.0"),
            ])
        ),
        _ => panic!("a JSON payload is sent"),
    }
}

#[test]
fn debridlink_refresh_token_is_encoded() {
    for (token, encoded) in [
        ("", ""),
        ("a", "YQ"),
        ("ab", "YWI"),
        ("abc", "YWJj"),
        ("ref~resh?>é", "cmVmfnJlc2g_PsOp"),
    ] {
        let answer = debridlink_authorize_reply(answered(
            200,
            object(&[("access_token", "z"), ("refresh_token", token)]),
        ));
        assert_eq!(answer.status, 200);
        assert_eq!(answer.body, object(&[("token", encoded)]));
    }
}

#[test]
fn debridlink_passes_other_replies_on_with_success() {
    let pending = || object(&[("error", "authorization_pending")]);
    let answer = debridlink_authorize_reply(answered(400, pending()));
    assert_eq!((answer.status, answer.body), (200, pending()));
    let answer = debridlink_authorize_reply(answered(200, pending()));
    assert_eq!((answer.status, answer.body), (200, pending()));
    let unused = || object(&[("refresh_token", "r")]);
    for status in [199, 300, 400, 500] {
        let answer = debridlink_authorize_reply(answered(status, unused()));
        assert_eq!((answer.status, answer.body), (200, unused()));
    }
    assert_ne!(
        debridlink_authorize_reply(answered(299, unused())).body,
        unused()
    );
}

#[test]
fn debridlink_failures_are_gateway_errors() {
    let unreadable = debridlink_authorize_reply(ProviderReply::Unreadable);
    assert_eq!(unreadable.status, 502);
    assert_eq!(
        unreadable.body,
        object(&[("detail", "Invalid response from DebridLink")])
    );
    let unreachable = debridlink_authorize_reply(ProviderReply::Unreachable);
    assert_eq!(unreachable.status, 502);
    assert_eq!(
        unreachable.body,
        object(&[("detail", "Failed to contact DebridLink")])
    );
}

#[test]
fn members_are_found_by_name() {
    let body = Json::Object(vec![
        ("a".to_string(), Json::Text("1".to_string())),
        ("b".to_string(), Json::Null),
        ("c".to_string(), Json::Text("3".to_string())),
    ]);
    assert_eq!(body.text_of("a"), Some("1"));
    assert_eq!(body.text_of("b"), None);
    assert_eq!(body.text_of("c"), Some("3"));
    assert_eq!(body.text_of("d"), None);
}

#[test]
fn text_objects_hold_their_members_in_order() {
    let made = text_object(&[("x", "1"), ("y", "2")]);
    assert_eq!(made, object(&[("x", "1"), ("y", "2")]));
    assert_eq!(made.text_of("x"), Some("1"));
    assert_eq!(made.text_of("y"), Some("2"));
    assert_eq!(text_object(&[]), object(&[]));
}
