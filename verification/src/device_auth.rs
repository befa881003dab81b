//! Device-code authorisation with Real-Debrid and DebridLink.
//!
//! Every route comes in two halves: the first says which request to send to the
//! provider, or refuses, and the second turns what came back into the answer.

use crate::exchange::{
    detail, is_detail, is_status_code, is_success, is_valid_reply, text_object, JsonReply, Payload,
    ProviderReply, ProviderRequest,
};
use crate::json::{is_text_object, is_valid, text_member, Json};
use crate::outside::{
    base64_url, base64_url_decoded, base64_url_encode, base64_url_is_injective,
    base64_url_is_url_safe, base64_url_reads_back, is_base64_url_char,
};
use vstd::prelude::*;
use vstd::string::*;
use vstd::utf8::*;

verus! {

/// The identifier under which this gateway is registered with DebridLink.
pub const DEBRIDLINK_CLIENT_ID: &'static str = "RyrV22FOg30DsxjYPziRKA";

/// The answer to a device-code request: the provider's own status and body, or
/// a gateway error.
pub open spec fn device_code_answer(
    reply: ProviderReply,
    unreadable: Seq<char>,
    unreachable: Seq<char>,
    answer: JsonReply,
) -> bool {
    match reply {
        ProviderReply::Unreachable => is_detail(answer, 502, unreachable),
        ProviderReply::Unreadable => is_detail(answer, 502, unreadable),
        ProviderReply::Answered { status, body } => {
            &&& answer.status == if is_status_code(status) {
                status
            } else {
                200
            }
            &&& answer.body == body
        },
    }
}

fn forward_device_code(reply: ProviderReply, unreadable: &str, unreachable: &str) -> (answer:
    JsonReply)
    ensures
        device_code_answer(reply, unreadable@, unreachable@, answer),
        is_valid_reply(reply) ==> is_valid(answer.body),
{
    match reply {
        ProviderReply::Unreachable => detail(502, unreachable),
        ProviderReply::Unreadable => detail(502, unreadable),
        ProviderReply::Answered { status, body } => {
            let status: u16 = if 100 <= status && status <= 999 {
                status
            } else {
                200
            };
            JsonReply { status, body }
        },
    }
}

/// `GET /streaming_provider/realdebrid/get-device-code`: the request to send,
/// for a client identifier registered with Real-Debrid.
pub fn realdebrid_get_device_code(client_id: &str) -> (request: ProviderRequest)
    ensures
        request.provider@ == "realdebrid"@,
        request.url@ == "https://api.real-debrid.com/oauth/v2/device/code?client_id="@
            + client_id@ + "&new_credentials=yes"@,
        request.payload is Nothing,
{
    let mut url = "https://api.real-debrid.com/oauth/v2/device/code?client_id=".to_owned();
    url.append(client_id);
    url.append("&new_credentials=yes");
    ProviderRequest { provider: "realdebrid".to_owned(), url, payload: Payload::Nothing }
}

/// The answer once Real-Debrid has replied to a device-code request.
pub fn realdebrid_get_device_code_reply(reply: ProviderReply) -> (answer: JsonReply)
    ensures
        device_code_answer(
            reply,
            "Invalid response from Real-Debrid"@,
            "Failed to contact Real-Debrid"@,
            answer,
        ),
        is_valid_reply(reply) ==> is_valid(answer.body),
{
    forward_device_code(reply, "Invalid response from Real-Debrid", "Failed to contact Real-Debrid")
}

/// The device code of an authorisation request, or the refusal of a request
/// that has none.
fn device_code_of(body: &Json) -> (code: Result<String, JsonReply>)
    ensures
        match text_member(*body, "device_code"@) {
            Some(text) => code matches Ok(held) && held@ == text,
            None => code matches Err(refusal) && is_detail(refusal, 422, "Missing device_code"@),
        },
        code matches Err(refusal) ==> is_valid(refusal.body),
{
    match body.text_of("device_code") {
        Some(text) => Ok(text.to_owned()),
        None => Err(detail(422, "Missing device_code")),
    }
}

/// `POST /streaming_provider/realdebrid/authorize`: the device code to
/// authorise, or the refusal of a request that has none.
pub fn realdebrid_authorize(body: &Json) -> (code: Result<String, JsonReply>)
    ensures
        match text_member(*body, "device_code"@) {
            Some(text) => code matches Ok(held) && held@ == text,
            None => code matches Err(refusal) && is_detail(refusal, 422, "Missing device_code"@),
        },
        code matches Err(refusal) ==> is_valid(refusal.body),
{
    device_code_of(body)
}

/// The answer once Real-Debrid has authorised the device code, or has failed to.
/// A failure is answered with success and the reason, so that clients go on
/// asking.
pub fn realdebrid_authorize_reply(outcome: Result<Json, String>) -> (answer: JsonReply)
    ensures
        answer.status == 200,
        match outcome {
            Ok(body) => answer.body == body,
            Err(reason) => is_text_object(
                answer.body,
                seq![("error"@, reason@), ("message"@, reason@)],
            ),
        },
        (outcome matches Ok(body) ==> is_valid(body)) ==> is_valid(answer.body),
{
    match outcome {
        Ok(body) => JsonReply { status: 200, body },
        Err(reason) => {
            proof {
                reveal_strlit("error");
                reveal_strlit("message");
                assert("error"@.len() != "message"@.len());
            }
            let body = text_object(&[("error", reason.as_str()), ("message", reason.as_str())]);
            JsonReply { status: 200, body }
        },
    }
}

/// `GET /streaming_provider/debridlink/get-device-code`: the request to send.
pub fn debridlink_get_device_code() -> (request: ProviderRequest)
    ensures
        request.provider@ == "debridlink"@,
        request.url@ == "https://debrid-link.com/api/oauth/device/code"@,
        request.payload matches Payload::Json(body) && is_valid(body) && is_text_object(
            body,
            seq![
                ("client_id"@, DEBRIDLINK_CLIENT_ID@),
                (
                    "scope"@,
                    "get.post.downloader get.post.seedbox get.account get.files get.post.stream"@,
                ),
            ],
        ),
{
    proof {
        reveal_strlit("client_id");
        reveal_strlit("scope");
        assert("client_id"@.len() != "scope"@.len());
    }
    let body = text_object(
        &[
            ("client_id", DEBRIDLINK_CLIENT_ID),
            ("scope", "get.post.downloader get.post.seedbox get.account get.files get.post.stream"),
        ],
    );
    ProviderRequest {
        provider: "debridlink".to_owned(),
        url: "https://debrid-link.com/api/oauth/device/code".to_owned(),
        payload: Payload::Json(body),
    }
}

/// The answer once DebridLink has replied to a device-code request.
pub fn debridlink_get_device_code_reply(reply: ProviderReply) -> (answer: JsonReply)
    ensures
        device_code_answer(
            reply,
            "Invalid response from DebridLink"@,
            "Failed to contact DebridLink"@,
            answer,
        ),
        is_valid_reply(reply) ==> is_valid(answer.body),
{
    forward_device_code(reply, "Invalid response from DebridLink", "Failed to contact DebridLink")
}

/// `POST /streaming_provider/debridlink/authorize`: the request to send, or the
/// refusal of a request without a device code.
pub fn debridlink_authorize(body: &Json) -> (step: Result<ProviderRequest, JsonReply>)
    ensures
        match text_member(*body, "device_code"@) {
            Some(code) => {
                &&& step matches Ok(request)
                &&& request.provider@ == "debridlink"@
                &&& request.url@ == "https://debrid-link.com/api/oauth/token"@
                &&& request.payload matches Payload::Json(sent)
                &&& is_valid(sent)
                &&& is_text_object(
                    sent,
                    seq![
                        ("client_id"@, DEBRIDLINK_CLIENT_ID@),
                        ("code"@, code),
                        ("grant_type"@, "http://oauth.net/grant_type/device/1.0"@),
                    ],
                )
            },
            None => step matches Err(refusal) && is_detail(refusal, 422, "Missing device_code"@),
        },
        step matches Err(refusal) ==> is_valid(refusal.body),
{
    let code = match device_code_of(body) {
        Ok(code) => code,
        Err(refusal) => return Err(refusal),
    };
    proof {
        reveal_strlit("client_id");
        reveal_strlit("code");
        reveal_strlit("grant_type");
        assert("client_id"@.len() == 9 && "code"@.len() == 4 && "grant_type"@.len() == 10);
    }
    let sent = text_object(
        &[
            ("client_id", DEBRIDLINK_CLIENT_ID),
            ("code", code.as_str()),
            ("grant_type", "http://oauth.net/grant_type/device/1.0"),
        ],
    );
    Ok(
        ProviderRequest {
            provider: "debridlink".to_owned(),
            url: "https://debrid-link.com/api/oauth/token".to_owned(),
            payload: Payload::Json(sent),
        },
    )
}

/// The token that a client keeps for a refresh token: its URL-safe base64 text.
pub open spec fn debridlink_token_text(refresh_token: Seq<char>) -> Seq<char> {
    base64_url(encode_utf8(refresh_token))
}

/// The answer once DebridLink has replied to an authorisation request. A
/// successful reply with a refresh token is answered with the encoded token. Any
/// other reply, of a pending or an expired authorisation among them, is passed
/// on with status 200, so that clients go on asking.
pub fn debridlink_authorize_reply(reply: ProviderReply) -> (answer: JsonReply)
    ensures
        match reply {
            ProviderReply::Unreachable => is_detail(answer, 502, "Failed to contact DebridLink"@),
            ProviderReply::Unreadable => is_detail(answer, 502, "Invalid response from DebridLink"@),
            ProviderReply::Answered { status, body } => {
                let refresh_token = text_member(body, "refresh_token"@);
                &&& answer.status == 200
                &&& if is_success(status) && refresh_token is Some {
                    is_text_object(
                        answer.body,
                        seq![("token"@, debridlink_token_text(refresh_token->0))],
                    )
                } else {
                    answer.body == body
                }
            },
        },
        is_valid_reply(reply) ==> is_valid(answer.body),
{
    match reply {
        ProviderReply::Unreachable => detail(502, "Failed to contact DebridLink"),
        ProviderReply::Unreadable => detail(502, "Invalid response from DebridLink"),
        ProviderReply::Answered { status, body } => {
            if 200 <= status && status <= 299 {
                if let Some(refresh_token) = body.text_of("refresh_token") {
                    let token = base64_url_encode(refresh_token.as_bytes());
                    return JsonReply {
                        status: 200,
                        body: text_object(&[("token", token.as_str())]),
                    };
                }
            }
            JsonReply { status: 200, body }
        },
    }
}

/// Distinct refresh tokens are handed to clients as distinct tokens.
pub proof fn debridlink_token_tells_the_refresh_token(one: Seq<char>, other: Seq<char>)
    requires
        debridlink_token_text(one) == debridlink_token_text(other),
    ensures
        one == other,
{
    base64_url_is_injective(encode_utf8(one), encode_utf8(other));
    encode_utf8_decode_utf8(one);
    encode_utf8_decode_utf8(other);
}

/// Whoever decodes the token that a client keeps gets the refresh token back,
/// character for character. The token holds letters, digits, `-` and `_` only,
/// and is as long as its bytes require.
pub proof fn debridlink_token_reads_back(refresh_token: Seq<char>)
    ensures
        ({
            let token = debridlink_token_text(refresh_token);
            &&& base64_url_decoded(token) == encode_utf8(refresh_token)
            &&& decode_utf8(base64_url_decoded(token)) == refresh_token
            &&& token.len() == (4 * encode_utf8(refresh_token).len() + 2) / 3
            &&& forall|i: int| 0 <= i < token.len() ==> is_base64_url_char(#[trigger] token[i])
        }),
{
    base64_url_reads_back(encode_utf8(refresh_token));
    base64_url_is_url_safe(encode_utf8(refresh_token));
    encode_utf8_decode_utf8(refresh_token);
}

/// A successful reply that holds a refresh token is answered with one text, from
/// which decoding gives that refresh token back. Every other reply is passed on
/// as it is. Both are answered with success.
pub proof fn debridlink_answer_carries_the_refresh_token(
    status: u16,
    body: Json,
    answer: JsonReply,
)
    requires
        call_ensures(
            debridlink_authorize_reply,
            (ProviderReply::Answered { status, body },),
            answer,
        ),
    ensures
        answer.status == 200,
        200 <= status <= 299 && text_member(body, "refresh_token"@) is Some ==> {
            &&& answer.body matches Json::Object(members)
            &&& members@.len() == 1
            &&& members@[0].0@ == "token"@
            &&& members@[0].1 matches Json::Text(token)
            &&& token@ == base64_url(encode_utf8(text_member(body, "refresh_token"@)->0))
            &&& decode_utf8(base64_url_decoded(token@)) == text_member(body, "refresh_token"@)->0
        },
        !(200 <= status <= 299) || text_member(body, "refresh_token"@) is None ==> answer.body
            == body,
{
    let refresh_token = text_member(body, "refresh_token"@);
    if refresh_token is Some {
        debridlink_token_reads_back(refresh_token->0);
    }
}

/// A request that failed, or whose response was no JSON, is answered as a gateway
/// error with one text that says which.
pub proof fn debridlink_failures_are_gateway_errors(reply: ProviderReply, answer: JsonReply)
    requires
        call_ensures(debridlink_authorize_reply, (reply,), answer),
        reply !is Answered,
    ensures
        answer.status == 502,
        answer.body matches Json::Object(members) && members@.len() == 1 && members@[0].0@
            == "detail"@ && members@[0].1 is Text && members@[0].1->Text_0@
            == if reply is Unreachable {
            "Failed to contact DebridLink"@
        } else {
            "Invalid response from DebridLink"@
        },
{
}

/// A reply to a device-code request is passed on with its own status and its own
/// body; a request that failed, or whose response was no JSON, is a gateway error.
pub proof fn realdebrid_device_code_is_passed_on(reply: ProviderReply, answer: JsonReply)
    requires
        call_ensures(realdebrid_get_device_code_reply, (reply,), answer),
    ensures
        reply matches ProviderReply::Answered { status, body } ==> answer.body == body && (
        answer.status == status || !(100 <= status <= 999) && answer.status == 200),
        reply !is Answered ==> answer.status == 502 && (
        answer.body matches Json::Object(members) && members@.len() == 1 && members@[0].0@
            == "detail"@ && members@[0].1 is Text && members@[0].1->Text_0@
            == if reply is Unreachable {
            "Failed to contact Real-Debrid"@
        } else {
            "Invalid response from Real-Debrid"@
        }),
{
}

/// A reply to a device-code request is passed on with its own status and its own
/// body; a request that failed, or whose response was no JSON, is a gateway error.
pub proof fn debridlink_device_code_is_passed_on(reply: ProviderReply, answer: JsonReply)
    requires
        call_ensures(debridlink_get_device_code_reply, (reply,), answer),
    ensures
        reply matches ProviderReply::Answered { status, body } ==> answer.body == body && (
        answer.status == status || !(100 <= status <= 999) && answer.status == 200),
        reply !is Answered ==> answer.status == 502 && (
        answer.body matches Json::Object(members) && members@.len() == 1 && members@[0].0@
            == "detail"@ && members@[0].1 is Text && members@[0].1->Text_0@
            == if reply is Unreachable {
            "Failed to contact DebridLink"@
        } else {
            "Invalid response from DebridLink"@
        }),
{
}

/// A request for a Real-Debrid device code names the client, and asks for
/// credentials of its own.
pub proof fn realdebrid_request_names_the_client(client_id: &str, request: ProviderRequest)
    requires
        call_ensures(realdebrid_get_device_code, (client_id,), request),
    ensures
        request.provider@ == "realdebrid"@,
        request.payload is Nothing,
        request.url@ == "https://api.real-debrid.com/oauth/v2/device/code?client_id="@ + client_id@
            + "&new_credentials=yes"@,
{
}

/// The device code of a request is the one that is authorised, in full; a request
/// without one is refused.
pub proof fn realdebrid_authorizes_the_code_of_the_request(
    body: Json,
    code: Result<String, JsonReply>,
)
    requires
        call_ensures(realdebrid_authorize, (&body,), code),
    ensures
        code is Ok <==> text_member(body, "device_code"@) is Some,
        code matches Ok(held) ==> text_member(body, "device_code"@) == Some(held@),
        code matches Err(refusal) ==> refusal.status == 422 && (
        refusal.body matches Json::Object(members) && members@.len() == 1 && members@[0].0@
            == "detail"@ && members@[0].1 is Text && members@[0].1->Text_0@
            == "Missing device_code"@),
{
}

/// What Real-Debrid gave is passed on with success; where it failed, the reason
/// stands under both names, also with success.
pub proof fn realdebrid_outcome_is_answered_with_success(
    outcome: Result<Json, String>,
    answer: JsonReply,
)
    requires
        call_ensures(realdebrid_authorize_reply, (outcome,), answer),
    ensures
        answer.status == 200,
        outcome matches Ok(body) ==> answer.body == body,
        outcome matches Err(reason) ==> {
            &&& answer.body matches Json::Object(members)
            &&& members@.len() == 2
            &&& members@[0].0@ == "error"@
            &&& members@[1].0@ == "message"@
            &&& members@[0].1 is Text
            &&& members@[0].1->Text_0@ == reason@
            &&& members@[1].1 is Text
            &&& members@[1].1->Text_0@ == reason@
        },
{
}

/// A request for a DebridLink device code carries the gateway's registration and
/// the scope it asks for.
pub proof fn debridlink_request_carries_the_registration(request: ProviderRequest)
    requires
        call_ensures(debridlink_get_device_code, (), request),
    ensures
        request.provider@ == "debridlink"@,
        request.url@ == "https://debrid-link.com/api/oauth/device/code"@,
        request.payload matches Payload::Json(Json::Object(members)) && members@.len() == 2
            && members@[0].0@ == "client_id"@ && members@[0].1 is Text && members@[0].1->Text_0@
            == "RyrV22FOg30DsxjYPziRKA"@ && members@[1].0@ == "scope"@ && members@[1].1 is Text
            && members@[1].1->Text_0@
            == "get.post.downloader get.post.seedbox get.account get.files get.post.stream"@,
{
}

/// A DebridLink token request carries the device code of the client's request in
/// full, beside the gateway's registration; a request without one is refused.
pub proof fn debridlink_token_request_carries_the_code(
    body: Json,
    step: Result<ProviderRequest, JsonReply>,
)
    requires
        call_ensures(debridlink_authorize, (&body,), step),
    ensures
        step is Ok <==> text_member(body, "device_code"@) is Some,
        step matches Ok(request) ==> {
            &&& request.provider@ == "debridlink"@
            &&& request.url@ == "https://debrid-link.com/api/oauth/token"@
            &&& request.payload matches Payload::Json(Json::Object(members))
            &&& members@.len() == 3
            &&& members@[0].0@ == "client_id"@
            &&& members@[0].1 is Text
            &&& members@[0].1->Text_0@ == "RyrV22FOg30DsxjYPziRKA"@
            &&& members@[1].0@ == "code"@
            &&& members@[1].1 is Text
            &&& Some(members@[1].1->Text_0@) == text_member(body, "device_code"@)
            &&& members@[2].0@ == "grant_type"@
            &&& members@[2].1 is Text
            &&& members@[2].1->Text_0@ == "http://oauth.net/grant_type/device/1.0"@
        },
        step matches Err(refusal) ==> refusal.status == 422 && (
        refusal.body matches Json::Object(members) && members@.len() == 1 && members@[0].0@
            == "detail"@ && members@[0].1 is Text && members@[0].1->Text_0@
            == "Missing device_code"@),
{
}

} // verus!
