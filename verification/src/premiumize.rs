//! The Premiumize OAuth flow: the redirect to Premiumize, the exchange of the
//! authorisation code for a token, and the page that hands the result to the
//! configuration page that opened it.

use crate::exchange::{
    detail, header_value_is_told_by_its_characters, is_barred_from_headers, is_detail,
    is_header_value, is_temporary_redirect, owned_pairs, pair_texts, temporary_redirect, HtmlReply,
    JsonReply, Payload, ProviderReply, ProviderRequest, RedirectReply,
};
use crate::json::{
    comes_before, comes_before_at, embedded_object_reads_back, escape_for_script, is_valid,
    json_escapes, member_views, object_text, object_to_text, read_object,
    script_escaping_keeps_the_object, script_escaping_removes_markup, script_json_escapes,
    text_member, Json,
};
use crate::outside::{
    fresh_identifier, is_fresh_identifier, is_simple_uuid_v4, is_url_component_char,
    percent_decoded, percent_encoded, percent_encoded_is_url_safe, percent_encoding_reads_back,
    url_encode,
};
use crate::text::{avoids, flat_map, lemma_flat_map_avoids, lemma_flat_map_first};
use vstd::prelude::*;
use vstd::string::*;
use vstd::utf8::*;

verus! {

/// The gateway's own address and its registration with Premiumize.
pub struct PremiumizeConfig {
    pub host_url: String,
    pub oauth_client_id: Option<String>,
    pub oauth_client_secret: Option<String>,
}

pub struct PremiumizeAuthorizeQuery {
    pub state: Option<String>,
}

pub struct PremiumizeOAuthRedirectQuery {
    pub code: Option<String>,
    pub state: Option<String>,
    pub error: Option<String>,
    pub error_description: Option<String>,
}

/// An optional string, seen as a text.
pub open spec fn text_of(value: Option<String>) -> Option<Seq<char>> {
    match value {
        Some(text) => Some(text@),
        None => None,
    }
}

/// An optional string slice, seen as a text.
pub open spec fn slice_text(value: Option<&str>) -> Option<Seq<char>> {
    match value {
        Some(text) => Some(text@),
        None => None,
    }
}

/// A text that is there and not empty.
pub open spec fn filled(value: Option<Seq<char>>) -> Option<Seq<char>> {
    if value is Some && value->0.len() > 0 {
        value
    } else {
        None
    }
}

/// The first text where it is there, or else the second.
pub open spec fn or_else(value: Option<Seq<char>>, fallback: Seq<char>) -> Seq<char> {
    match value {
        Some(text) => text,
        None => fallback,
    }
}

fn filled_text(value: Option<&str>) -> (found: Option<&str>)
    ensures
        slice_text(found) == filled(slice_text(value)),
{
    match value {
        Some(text) => if text.is_empty() {
            None
        } else {
            Some(text)
        },
        None => None,
    }
}

fn as_slice(value: &Option<String>) -> (slice: Option<&str>)
    ensures
        slice_text(slice) == text_of(*value),
{
    match value {
        Some(text) => Some(text.as_str()),
        None => None,
    }
}

/// The address to which Premiumize sends the client back.
pub open spec fn redirect_uri_text(host_url: Seq<char>) -> Seq<char> {
    host_url + "/streaming_provider/premiumize/oauth2_redirect"@
}

/// The address to which Premiumize sends the client back.
pub fn premiumize_oauth_redirect_uri(host_url: &str) -> (uri: String)
    ensures
        uri@ == redirect_uri_text(host_url@),
{
    let mut uri = host_url.to_owned();
    uri.append("/streaming_provider/premiumize/oauth2_redirect");
    uri
}

/// How a character stands in HTML text.
pub open spec fn html_escape(c: char) -> Seq<char> {
    if c == '&' {
        "&amp;"@
    } else if c == '<' {
        "&lt;"@
    } else if c == '>' {
        "&gt;"@
    } else if c == '"' {
        "&quot;"@
    } else {
        seq![c]
    }
}

/// The HTML escape of every character, as a function.
pub open spec fn html_escapes() -> spec_fn(char) -> Seq<char> {
    |c: char| html_escape(c)
}

/// Text in the form in which it may stand in HTML.
pub fn escape_for_html(text: &str) -> (out: String)
    ensures
        out@ == flat_map(text@, html_escapes()),
{
    let mut out = String::new();
    for c in it: text.chars()
        invariant
            it.seq() == text@,
            out@ == flat_map(text@.take(it.index()), html_escapes()),
    {
        proof {
            let next = text@.take(it.index() + 1);
            assert(next.drop_last() =~= text@.take(it.index()));
            assert(next.last() == c);
        }
        if c == '&' {
            out.append("&amp;");
        } else if c == '<' {
            out.append("&lt;");
        } else if c == '>' {
            out.append("&gt;");
        } else if c == '"' {
            out.append("&quot;");
        } else {
            out.push(c);
        }
        proof {
            assert(out@ =~= flat_map(text@.take(it.index() + 1), html_escapes()));
        }
    }
    assert(text@.take(text@.len() as int) =~= text@);
    out
}

/// The message that the page posts to the window that opened it, member by
/// member.
pub open spec fn message_members(
    state: Option<Seq<char>>,
    token: Option<Seq<char>>,
    error: Option<Seq<char>>,
) -> Seq<(Seq<char>, Option<Seq<char>>)> {
    seq![
        ("error"@, error),
        ("state"@, Some(or_else(state, ""@))),
        (
            "status"@,
            Some(
                if token is Some {
                    "success"@
                } else {
                    "error"@
                },
            ),
        ),
        ("token"@, token),
        ("type"@, Some("mediafusion:premiumize-oauth"@)),
    ]
}

/// The sentence that the page shows.
pub open spec fn display_text(token: Option<Seq<char>>, error: Option<Seq<char>>) -> Seq<char> {
    if token is Some {
        "Your Premiumize credentials were sent to the configuration page. This tab will close automatically."@
    } else {
        or_else(error, "Premiumize authorization failed."@)
    }
}

/// A page with these parts. The sentence and the message are already escaped.
pub open spec fn page_text(
    title: Seq<char>,
    heading: Seq<char>,
    sentence: Seq<char>,
    message: Seq<char>,
) -> Seq<char> {
    "<!DOCTYPE html><html><head><title>"@ + title + "</title></head><body><h1>"@ + heading
        + "</h1><p>"@ + sentence
        + "</p><p>If this tab does not close, return to Configure and try again.</p><script>const result = "@
        + message
        + ";const deliver = () => {if (window.opener && !window.opener.closed) {window.opener.postMessage(result, '*');}};deliver();window.setInterval(deliver, 500);</script></body></html>"@
}

/// The page that reports the outcome of an authorisation: the token, or else
/// the error.
pub open spec fn result_page_text(
    state: Option<Seq<char>>,
    token: Option<Seq<char>>,
    error: Option<Seq<char>>,
) -> Seq<char> {
    page_text(
        if token is Some {
            "Premiumize Authorized"@
        } else {
            "Premiumize Authorization Failed"@
        },
        if token is Some {
            "Premiumize authorized"@
        } else {
            "Premiumize authorization failed"@
        },
        flat_map(display_text(token, error), html_escapes()),
        object_text(message_members(state, token, error), script_json_escapes()),
    )
}

/// An answer that is the page for this outcome, never to be stored by a cache.
pub open spec fn is_result_page(
    reply: HtmlReply,
    state: Option<Seq<char>>,
    token: Option<Seq<char>>,
    error: Option<Seq<char>>,
) -> bool {
    &&& reply.status == 200
    &&& reply.content_type@ == "text/html; charset=utf-8"@
    &&& reply.cache_control@ == "no-store"@
    &&& reply.body@ == result_page_text(state, token, error)
}

/// A page with these parts. The sentence and the message are already escaped.
pub fn page(title: &str, heading: &str, sentence: &str, message: &str) -> (body: String)
    ensures
        body@ == page_text(title@, heading@, sentence@, message@),
{
    let mut body = "<!DOCTYPE html><html><head><title>".to_owned();
    body.append(title);
    body.append("</title></head><body><h1>");
    body.append(heading);
    body.append("</h1><p>");
    body.append(sentence);
    body.append(
        "</p><p>If this tab does not close, return to Configure and try again.</p><script>const result = ",
    );
    body.append(message);
    body.append(
        ";const deliver = () => {if (window.opener && !window.opener.closed) {window.opener.postMessage(result, '*');}};deliver();window.setInterval(deliver, 500);</script></body></html>",
    );
    body
}

proof fn lemma_member_names_ascend()
    ensures
        comes_before("error"@, "state"@),
        comes_before("state"@, "status"@),
        comes_before("status"@, "token"@),
        comes_before("token"@, "type"@),
{
    reveal_strlit("error");
    reveal_strlit("state");
    reveal_strlit("status");
    reveal_strlit("token");
    reveal_strlit("type");
    assert("error"@.take(0) =~= "state"@.take(0));
    assert(comes_before_at("error"@, "state"@, 0));
    assert("state"@.take(4) =~= "status"@.take(4));
    assert(comes_before_at("state"@, "status"@, 4));
    assert("status"@.take(0) =~= "token"@.take(0));
    assert(comes_before_at("status"@, "token"@, 0));
    assert("token"@.take(1) =~= "type"@.take(1));
    assert(comes_before_at("token"@, "type"@, 1));
}

fn owned(value: Option<&str>) -> (copy: Option<String>)
    ensures
        text_of(copy) == slice_text(value),
{
    match value {
        Some(text) => Some(text.to_owned()),
        None => None,
    }
}

/// The message of the page as JSON text that may stand in a script element.
fn message_json(state: Option<&str>, token: Option<&str>, error: Option<&str>) -> (text: String)
    ensures
        text@ == object_text(
            message_members(slice_text(state), slice_text(token), slice_text(error)),
            script_json_escapes(),
        ),
{
    let status = if token.is_some() {
        "success"
    } else {
        "error"
    };
    let echoed = match state {
        Some(text) => text,
        None => "",
    };
    let mut members: Vec<(String, Option<String>)> = Vec::new();
    members.push(("error".to_owned(), owned(error)));
    members.push(("state".to_owned(), Some(echoed.to_owned())));
    members.push(("status".to_owned(), Some(status.to_owned())));
    members.push(("token".to_owned(), owned(token)));
    members.push(("type".to_owned(), Some("mediafusion:premiumize-oauth".to_owned())));
    proof {
        lemma_member_names_ascend();
        assert(member_views(members@) =~= message_members(
            slice_text(state),
            slice_text(token),
            slice_text(error),
        ));
        script_escaping_keeps_the_object(member_views(members@));
    }
    let json = match object_to_text(&members) {
        Ok(json) => json,
        Err(_) => "{}".to_owned(),
    };
    escape_for_script(json.as_str())
}

/// The page that reports the outcome of an authorisation: the token, or else
/// the error.
pub fn premiumize_oauth_result_page(
    state: Option<&str>,
    token: Option<&str>,
    error: Option<&str>,
) -> (reply: HtmlReply)
    ensures
        is_result_page(reply, slice_text(state), slice_text(token), slice_text(error)),
{
    let success = token.is_some();
    let title = if success {
        "Premiumize Authorized"
    } else {
        "Premiumize Authorization Failed"
    };
    let heading = if success {
        "Premiumize authorized"
    } else {
        "Premiumize authorization failed"
    };
    let sentence = if success {
        "Your Premiumize credentials were sent to the configuration page. This tab will close automatically."
    } else {
        match error {
            Some(text) => text,
            None => "Premiumize authorization failed.",
        }
    };
    let message = message_json(state, token, error);
    let escaped = escape_for_html(sentence);
    HtmlReply {
        status: 200,
        content_type: "text/html; charset=utf-8".to_owned(),
        cache_control: "no-store".to_owned(),
        body: page(title, heading, escaped.as_str(), message.as_str()),
    }
}

/// The page for an authorisation that failed.
pub fn premiumize_oauth_error_page(state: Option<&str>, message: &str) -> (reply: HtmlReply)
    ensures
        is_result_page(reply, slice_text(state), None, Some(message@)),
{
    premiumize_oauth_result_page(state, None, Some(message))
}

/// The page for an authorisation that succeeded.
pub fn premiumize_oauth_success_page(state: Option<&str>, token: &str) -> (reply: HtmlReply)
    ensures
        is_result_page(reply, slice_text(state), Some(token@), None),
{
    premiumize_oauth_result_page(state, Some(token), None)
}

/// The address at Premiumize at which the client grants access.
pub open spec fn authorize_url_text(
    client_id: Seq<char>,
    host_url: Seq<char>,
    oauth_state: Seq<char>,
) -> Seq<char> {
    "https://www.premiumize.me/authorize?client_id="@ + client_id
        + "&response_type=code&redirect_uri="@ + percent_encoded(
        encode_utf8(redirect_uri_text(host_url)),
    ) + "&state="@ + percent_encoded(encode_utf8(oauth_state))
}

/// The states that an authorisation may carry: the client's own where it gave
/// one, or else an identifier drawn at random.
pub open spec fn is_oauth_state(given: Option<Seq<char>>, oauth_state: Seq<char>) -> bool {
    match filled(given) {
        Some(state) => oauth_state == state,
        None => is_simple_uuid_v4(oauth_state) && is_fresh_identifier(oauth_state),
    }
}

/// The redirect to Premiumize for a given state.
pub fn premiumize_authorize_with_state(client_id: &str, host_url: &str, oauth_state: &str) -> (reply:
    RedirectReply)
    ensures
        is_temporary_redirect(reply, authorize_url_text(client_id@, host_url@, oauth_state@)),
{
    let redirect_uri = premiumize_oauth_redirect_uri(host_url);
    let mut location = "https://www.premiumize.me/authorize?client_id=".to_owned();
    location.append(client_id);
    location.append("&response_type=code&redirect_uri=");
    location.append(url_encode(redirect_uri.as_str()).as_str());
    location.append("&state=");
    location.append(url_encode(oauth_state).as_str());
    temporary_redirect(location)
}

/// `GET /streaming_provider/premiumize/authorize`: the redirect to Premiumize,
/// or a refusal where the gateway has no client identifier. A client identifier
/// with a control character makes an address that no redirect can carry.
pub fn premiumize_authorize(config: &PremiumizeConfig, params: &PremiumizeAuthorizeQuery) -> (reply:
    Result<RedirectReply, JsonReply>)
    ensures
        match filled(text_of(config.oauth_client_id)) {
            Some(client_id) => {
                &&& reply matches Ok(redirect)
                &&& exists|oauth_state: Seq<char>|
                    is_oauth_state(text_of(params.state), oauth_state) && is_temporary_redirect(
                        redirect,
                        #[trigger] authorize_url_text(client_id, config.host_url@, oauth_state),
                    )
            },
            None => reply matches Err(refusal) && is_detail(
                refusal,
                503,
                "Premiumize OAuth client ID not configured. Set PREMIUMIZE_OAUTH_CLIENT_ID environment variable."@,
            ),
        },
        reply matches Err(refusal) ==> is_valid(refusal.body),
{
    let client_id = match filled_text(as_slice(&config.oauth_client_id)) {
        Some(client_id) => client_id,
        None => return Err(
            detail(
                503,
                "Premiumize OAuth client ID not configured. Set PREMIUMIZE_OAUTH_CLIENT_ID environment variable.",
            ),
        ),
    };
    let oauth_state = match filled_text(as_slice(&params.state)) {
        Some(state) => state.to_owned(),
        None => fresh_identifier(),
    };
    Ok(
        premiumize_authorize_with_state(
            client_id,
            config.host_url.as_str(),
            oauth_state.as_str(),
        ),
    )
}

/// The error for which a return from Premiumize is turned away before a token
/// is asked for, if there is one.
pub open spec fn redirect_error(
    config: PremiumizeConfig,
    params: PremiumizeOAuthRedirectQuery,
) -> Option<Seq<char>> {
    if filled(text_of(params.error)) is Some {
        Some(
            "Premiumize authorization failed: "@ + or_else(
                filled(text_of(params.error_description)),
                text_of(params.error)->0,
            ),
        )
    } else if filled(text_of(params.code)) is None {
        Some("Missing authorization code from Premiumize."@)
    } else if filled(text_of(config.oauth_client_id)) is None || filled(
        text_of(config.oauth_client_secret),
    ) is None {
        Some(
            "Premiumize OAuth is not configured on this server. Set PREMIUMIZE_OAUTH_CLIENT_ID and PREMIUMIZE_OAUTH_CLIENT_SECRET."@,
        )
    } else {
        None
    }
}

/// The form that exchanges an authorisation code for a token.
pub open spec fn token_form(
    client_id: Seq<char>,
    client_secret: Seq<char>,
    code: Seq<char>,
    host_url: Seq<char>,
) -> Seq<(Seq<char>, Seq<char>)> {
    seq![
        ("client_id"@, client_id),
        ("client_secret"@, client_secret),
        ("code"@, code),
        ("grant_type"@, "authorization_code"@),
        ("redirect_uri"@, redirect_uri_text(host_url)),
    ]
}

/// `GET /streaming_provider/premiumize/oauth2_redirect`: the token request to
/// send, or the page for a return that is turned away.
pub fn premiumize_oauth2_redirect(
    config: &PremiumizeConfig,
    params: &PremiumizeOAuthRedirectQuery,
) -> (step: Result<ProviderRequest, HtmlReply>)
    ensures
        match redirect_error(*config, *params) {
            Some(message) => step matches Err(page) && is_result_page(
                page,
                text_of(params.state),
                None,
                Some(message),
            ),
            None => {
                &&& step matches Ok(request)
                &&& request.provider@ == "premiumize"@
                &&& request.url@ == "https://www.premiumize.me/token"@
                &&& request.payload matches Payload::Form(form)
                &&& pair_texts(form@) == token_form(
                    text_of(config.oauth_client_id)->0,
                    text_of(config.oauth_client_secret)->0,
                    text_of(params.code)->0,
                    config.host_url@,
                )
            },
        },
{
    let state = as_slice(&params.state);
    if let Some(error) = filled_text(as_slice(&params.error)) {
        let description = match filled_text(as_slice(&params.error_description)) {
            Some(description) => description,
            None => error,
        };
        let mut message = "Premiumize authorization failed: ".to_owned();
        message.append(description);
        return Err(premiumize_oauth_error_page(state, message.as_str()));
    }
    let code = match filled_text(as_slice(&params.code)) {
        Some(code) => code,
        None => return Err(
            premiumize_oauth_error_page(state, "Missing authorization code from Premiumize."),
        ),
    };
    let client_id = filled_text(as_slice(&config.oauth_client_id));
    let client_secret = filled_text(as_slice(&config.oauth_client_secret));
    match (client_id, client_secret) {
        (Some(client_id), Some(client_secret)) => {
            let redirect_uri = premiumize_oauth_redirect_uri(config.host_url.as_str());
            let form = owned_pairs(
                &[
                    ("client_id", client_id),
                    ("client_secret", client_secret),
                    ("code", code),
                    ("grant_type", "authorization_code"),
                    ("redirect_uri", redirect_uri.as_str()),
                ],
            );
            assert(pair_texts(form@) =~= token_form(
                client_id@,
                client_secret@,
                code@,
                config.host_url@,
            ));
            Ok(
                ProviderRequest {
                    provider: "premiumize".to_owned(),
                    url: "https://www.premiumize.me/token".to_owned(),
                    payload: Payload::Form(form),
                },
            )
        },
        _ => Err(
            premiumize_oauth_error_page(
                state,
                "Premiumize OAuth is not configured on this server. Set PREMIUMIZE_OAUTH_CLIENT_ID and PREMIUMIZE_OAUTH_CLIENT_SECRET.",
            ),
        ),
    }
}

/// The sentence for an error that Premiumize gave in place of a token.
pub open spec fn token_error_text(error: Seq<char>) -> Seq<char> {
    if error == "invalid_grant"@ {
        "That Premiumize login link expired or was already used. Open Configure and connect Premiumize again."@
    } else if error == "invalid_client"@ {
        "Premiumize OAuth client credentials are invalid. Check Premiumize OAuth settings on the server."@
    } else {
        error
    }
}

/// What a reply to a token request came to: the access token, or else the error.
pub open spec fn token_outcome(reply: ProviderReply) -> Result<Seq<char>, Seq<char>> {
    match reply {
        ProviderReply::Unreachable => Err("Failed to contact Premiumize. Please try again."@),
        ProviderReply::Unreadable => Err("Invalid response from Premiumize."@),
        ProviderReply::Answered { status, body } => {
            match (text_member(body, "error"@), filled(text_member(body, "access_token"@))) {
                (Some(error), _) => Err(token_error_text(error)),
                (None, Some(token)) => Ok(token),
                (None, None) => Err(
                    "Premiumize authorization completed, but no access token was returned."@,
                ),
            }
        },
    }
}

/// The sentence for an error that Premiumize gave in place of a token.
fn token_error(error: &str) -> (text: &str)
    ensures
        text@ == token_error_text(error@),
{
    let name = error.to_owned();
    if name == "invalid_grant".to_owned() {
        "That Premiumize login link expired or was already used. Open Configure and connect Premiumize again."
    } else if name == "invalid_client".to_owned() {
        "Premiumize OAuth client credentials are invalid. Check Premiumize OAuth settings on the server."
    } else {
        error
    }
}

fn token_result(reply: &ProviderReply) -> (result: Result<String, String>)
    ensures
        match token_outcome(*reply) {
            Ok(token) => result matches Ok(held) && held@ == token,
            Err(message) => result matches Err(held) && held@ == message,
        },
{
    match reply {
        ProviderReply::Unreachable => Err(
            "Failed to contact Premiumize. Please try again.".to_owned(),
        ),
        ProviderReply::Unreadable => Err("Invalid response from Premiumize.".to_owned()),
        ProviderReply::Answered { status: _, body } => {
            if let Some(error) = body.text_of("error") {
                return Err(token_error(error).to_owned());
            }
            match filled_text(body.text_of("access_token")) {
                Some(token) => Ok(token.to_owned()),
                None => Err(
                    "Premiumize authorization completed, but no access token was returned.".to_owned(),
                ),
            }
        },
    }
}

/// A token exchange that failed: what went wrong, and the page that says so.
pub struct TokenFailure {
    pub message: String,
    pub page: HtmlReply,
}

/// Once Premiumize has replied to the token request: the access token, which
/// [`premiumize_oauth_success_page`] reports in its encoded form, or the failure.
pub fn premiumize_oauth2_redirect_reply(state: Option<&str>, reply: &ProviderReply) -> (step: Result<
    String,
    TokenFailure,
>)
    ensures
        match token_outcome(*reply) {
            Ok(token) => step matches Ok(held) && held@ == token,
            Err(message) => {
                &&& step matches Err(failure)
                &&& failure.message@ == message
                &&& is_result_page(failure.page, slice_text(state), None, Some(message))
            },
        },
        step is Ok <==> (*reply matches ProviderReply::Answered { body, .. } && text_member(
            body,
            "error"@,
        ) is None && (text_member(body, "access_token"@) matches Some(token) && token.len() > 0)),
        step matches Ok(held) ==> (*reply matches ProviderReply::Answered { body, .. }
            && text_member(body, "access_token"@) == Some(held@)),
{
    match token_result(reply) {
        Ok(token) => Ok(token),
        Err(message) => {
            let page = premiumize_oauth_error_page(state, message.as_str());
            Err(TokenFailure { message, page })
        },
    }
}

/// Nothing that a client or Premiumize says can add markup to the page: the
/// sentence shown holds no angle bracket and no quotation mark, and the message
/// in the script no angle bracket and no ampersand.
pub proof fn page_holds_no_foreign_markup(
    state: Option<Seq<char>>,
    token: Option<Seq<char>>,
    error: Option<Seq<char>>,
)
    ensures
        ({
            let sentence = flat_map(display_text(token, error), html_escapes());
            let message = object_text(message_members(state, token, error), script_json_escapes());
            &&& avoids(sentence, '<') && avoids(sentence, '>') && avoids(sentence, '"')
            &&& avoids(message, '<') && avoids(message, '>') && avoids(message, '&')
        }),
{
    reveal_strlit("&amp;");
    reveal_strlit("&lt;");
    reveal_strlit("&gt;");
    reveal_strlit("&quot;");
    lemma_flat_map_avoids(display_text(token, error), html_escapes(), '<');
    lemma_flat_map_avoids(display_text(token, error), html_escapes(), '>');
    lemma_flat_map_avoids(display_text(token, error), html_escapes(), '"');
    let members = message_members(state, token, error);
    script_escaping_keeps_the_object(members);
    script_escaping_removes_markup(object_text(members, json_escapes()));
}

/// The token request names the redirect address that the authorisation request
/// carried in percent-encoded form.
pub proof fn token_request_repeats_the_redirect_uri(
    client_id: Seq<char>,
    client_secret: Seq<char>,
    code: Seq<char>,
    host_url: Seq<char>,
    oauth_state: Seq<char>,
)
    ensures
        ({
            let field = token_form(client_id, client_secret, code, host_url)[4];
            &&& field.0 == "redirect_uri"@
            &&& authorize_url_text(client_id, host_url, oauth_state)
                == "https://www.premiumize.me/authorize?client_id="@ + client_id
                + "&response_type=code&redirect_uri="@ + percent_encoded(encode_utf8(field.1))
                + "&state="@ + percent_encoded(encode_utf8(oauth_state))
        }),
{
}

/// Whoever decodes the last parameter of the authorisation address gets the
/// state back, whatever characters it holds.
pub proof fn authorize_url_carries_the_state(
    client_id: Seq<char>,
    host_url: Seq<char>,
    oauth_state: Seq<char>,
)
    ensures
        ({
            let encoded = percent_encoded(encode_utf8(oauth_state));
            let url = authorize_url_text(client_id, host_url, oauth_state);
            &&& encoded.len() <= url.len()
            &&& url.skip(url.len() - encoded.len()) == encoded
            &&& decode_utf8(percent_decoded(encoded)) == oauth_state
        }),
{
    let encoded = percent_encoded(encode_utf8(oauth_state));
    let url = authorize_url_text(client_id, host_url, oauth_state);
    assert(url.skip(url.len() - encoded.len()) =~= encoded);
    percent_encoding_reads_back(encode_utf8(oauth_state));
    encode_utf8_decode_utf8(oauth_state);
}

/// A gateway that lacks its client identifier or secret asks for no token.
pub proof fn unconfigured_gateway_asks_for_no_token(
    config: PremiumizeConfig,
    params: PremiumizeOAuthRedirectQuery,
)
    requires
        filled(text_of(config.oauth_client_id)) is None || filled(text_of(config.oauth_client_secret)) is None,
    ensures
        redirect_error(config, params) is Some,
{
}

/// A token is reported only where Premiumize gave no error, and is never empty.
pub proof fn reported_token_is_genuine(status: u16, body: Json)
    requires
        token_outcome(ProviderReply::Answered { status, body }) is Ok,
    ensures
        text_member(body, "error"@) is None,
        text_member(body, "access_token"@) == Some(
            token_outcome(ProviderReply::Answered { status, body })->Ok_0,
        ),
        token_outcome(ProviderReply::Answered { status, body })->Ok_0.len() > 0,
{
}

proof fn lemma_utf8_of_concat(a: Seq<char>, b: Seq<char>)
    ensures
        encode_utf8(a + b) == encode_utf8(a) + encode_utf8(b),
    decreases a.len(),
{
    if a.len() == 0 {
        assert(a + b =~= b);
        assert(encode_utf8(a) + encode_utf8(b) =~= encode_utf8(b));
    } else {
        assert((a + b).drop_first() =~= a.drop_first() + b);
        lemma_utf8_of_concat(a.drop_first(), b);
        assert(encode_utf8(a + b) =~= encode_utf8(a) + encode_utf8(b));
    }
}

proof fn lemma_header_value_of_concat(a: Seq<char>, b: Seq<char>)
    ensures
        is_header_value(encode_utf8(a + b)) <==> is_header_value(encode_utf8(a))
            && is_header_value(encode_utf8(b)),
{
    lemma_utf8_of_concat(a, b);
    let (x, y) = (encode_utf8(a), encode_utf8(b));
    let whole = x + y;
    if is_header_value(whole) {
        assert forall|i: int| 0 <= i < x.len() implies (#[trigger] x[i] >= 32 && x[i] != 127) || x[i]
            == 9 by {
            assert(whole[i] == x[i]);
        }
        assert forall|i: int| 0 <= i < y.len() implies (#[trigger] y[i] >= 32 && y[i] != 127) || y[i]
            == 9 by {
            assert(whole[x.len() + i] == y[i]);
        }
    }
}

proof fn lemma_printable_is_header_value(s: Seq<char>)
    requires
        forall|i: int| 0 <= i < s.len() ==> 32 <= (#[trigger] s[i]) as int && (s[i] as int) < 127,
    ensures
        is_header_value(encode_utf8(s)),
{
    assert(is_ascii_chars(s));
    is_ascii_chars_encode_utf8(s);
}

proof fn lemma_url_component_char_is_printable(c: char)
    requires
        is_url_component_char(c),
    ensures
        32 <= c as int && (c as int) < 127,
{
    assert((c as int) < 128 ==> (c as u8) as int == c as int);
}

proof fn lemma_percent_encoded_is_header_value(data: Seq<u8>)
    ensures
        is_header_value(encode_utf8(percent_encoded(data))),
{
    let s = percent_encoded(data);
    percent_encoded_is_url_safe(data);
    assert forall|i: int| 0 <= i < s.len() implies 32 <= (#[trigger] s[i]) as int && (s[i] as int)
        < 127 by {
        lemma_url_component_char_is_printable(s[i]);
    }
    lemma_printable_is_header_value(s);
}

/// Whether the redirect to Premiumize can be sent rests with the client
/// identifier alone: no host address and no state can spoil it.
pub proof fn redirect_is_spoiled_by_the_client_id_only(
    client_id: Seq<char>,
    host_url: Seq<char>,
    oauth_state: Seq<char>,
)
    ensures
        is_header_value(encode_utf8(authorize_url_text(client_id, host_url, oauth_state)))
            <==> is_header_value(encode_utf8(client_id)),
{
    reveal_strlit("https://www.premiumize.me/authorize?client_id=");
    reveal_strlit("&response_type=code&redirect_uri=");
    reveal_strlit("&state=");
    let start = "https://www.premiumize.me/authorize?client_id="@;
    let uri = percent_encoded(encode_utf8(redirect_uri_text(host_url)));
    let state = percent_encoded(encode_utf8(oauth_state));
    lemma_percent_encoded_is_header_value(encode_utf8(redirect_uri_text(host_url)));
    lemma_percent_encoded_is_header_value(encode_utf8(oauth_state));
    lemma_printable_is_header_value(start);
    lemma_printable_is_header_value("&response_type=code&redirect_uri="@);
    lemma_printable_is_header_value("&state="@);
    let a = start + client_id;
    let b = a + "&response_type=code&redirect_uri="@;
    let c = b + uri;
    let d = c + "&state="@;
    lemma_header_value_of_concat(start, client_id);
    lemma_header_value_of_concat(a, "&response_type=code&redirect_uri="@);
    lemma_header_value_of_concat(b, uri);
    lemma_header_value_of_concat(c, "&state="@);
    lemma_header_value_of_concat(d, state);
}

/// A reply that holds no error text and a token that is not empty is a success,
/// whatever its status and whatever else it holds, and its token is the one
/// reported.
pub proof fn token_without_error_is_reported(status: u16, body: Json, token: Seq<char>)
    requires
        text_member(body, "error"@) is None,
        text_member(body, "access_token"@) == Some(token),
        token.len() > 0,
    ensures
        token_outcome(ProviderReply::Answered { status, body }) == Ok::<Seq<char>, Seq<char>>(token),
{
}

/// The text that escaped HTML text denotes.
pub open spec fn html_unescaped(s: Seq<char>) -> Seq<char>
    decreases s.len(),
{
    if s.len() == 0 {
        seq![]
    } else if s.len() >= 5 && s.take(5) == "&amp;"@ {
        seq!['&'] + html_unescaped(s.skip(5))
    } else if s.len() >= 4 && s.take(4) == "&lt;"@ {
        seq!['<'] + html_unescaped(s.skip(4))
    } else if s.len() >= 4 && s.take(4) == "&gt;"@ {
        seq!['>'] + html_unescaped(s.skip(4))
    } else if s.len() >= 6 && s.take(6) == "&quot;"@ {
        seq!['"'] + html_unescaped(s.skip(6))
    } else {
        seq![s[0]] + html_unescaped(s.skip(1))
    }
}

proof fn lemma_one_html_escape_reads_back(c: char, rest: Seq<char>)
    ensures
        html_unescaped(html_escape(c) + rest) == seq![c] + html_unescaped(rest),
{
    reveal_strlit("&amp;");
    reveal_strlit("&lt;");
    reveal_strlit("&gt;");
    reveal_strlit("&quot;");
    let first = html_escape(c);
    let whole = first + rest;
    assert(whole.skip(first.len() as int) =~= rest);
    assert(whole.len() >= 5 ==> whole.take(5)[0] == whole[0] && whole.take(5)[1] == whole[1]);
    assert(whole.len() >= 4 ==> whole.take(4)[0] == whole[0] && whole.take(4)[1] == whole[1]);
    assert(whole.len() >= 6 ==> whole.take(6)[0] == whole[0] && whole.take(6)[1] == whole[1]);
    if c == '&' {
        assert(whole.take(5) =~= "&amp;"@);
    } else if c == '<' {
        assert(whole.take(4) =~= "&lt;"@);
    } else if c == '>' {
        assert(whole.take(4) =~= "&gt;"@);
    } else if c == '"' {
        assert(whole.take(6) =~= "&quot;"@);
    }
}

proof fn lemma_html_reads_back(s: Seq<char>)
    ensures
        html_unescaped(flat_map(s, html_escapes())) == s,
    decreases s.len(),
{
    if s.len() > 0 {
        lemma_flat_map_first(s, html_escapes());
        lemma_one_html_escape_reads_back(s[0], flat_map(s.skip(1), html_escapes()));
        lemma_html_reads_back(s.skip(1));
        assert(s =~= seq![s[0]] + s.skip(1));
    } else {
        assert(s =~= Seq::<char>::empty());
    }
}

/// Escaping for HTML goes through the text character by character, and leaves
/// every character alone but the ampersand, the angle brackets and the quotation
/// mark. Whoever reads the result as HTML sees the text that was escaped.
pub proof fn html_escaping_reads_back(
    front: &str,
    whole: &str,
    last: char,
    front_out: String,
    whole_out: String,
)
    requires
        whole@ == front@.push(last),
        call_ensures(escape_for_html, (front,), front_out),
        call_ensures(escape_for_html, (whole,), whole_out),
    ensures
        front@.len() == 0 ==> front_out@.len() == 0,
        whole_out@ == front_out@ + if last == '&' {
            "&amp;"@
        } else if last == '<' {
            "&lt;"@
        } else if last == '>' {
            "&gt;"@
        } else if last == '"' {
            "&quot;"@
        } else {
            seq![last]
        },
        html_unescaped(whole_out@) == whole@,
{
    assert(whole@.drop_last() =~= front@);
    assert(whole@.last() == last);
    lemma_html_reads_back(whole@);
}

/// A page that shows a title, a heading and a sentence, and posts an object with
/// these members to the window that opened it, now and every half second. The
/// sentence and the object stand in it in a form that can add no markup.
pub open spec fn page_reports(
    body: Seq<char>,
    title: Seq<char>,
    heading: Seq<char>,
    shown: Seq<char>,
    posted: Seq<(Seq<char>, Option<Seq<char>>)>,
) -> bool {
    exists|sentence: Seq<char>, message: Seq<char>|
        {
            &&& #[trigger] html_unescaped(sentence) == shown
            &&& avoids(sentence, '<') && avoids(sentence, '>') && avoids(sentence, '"')
            &&& #[trigger] read_object(message) == Some(posted)
            &&& avoids(message, '<') && avoids(message, '>') && avoids(message, '&')
            &&& body == "<!DOCTYPE html><html><head><title>"@ + title
                + "</title></head><body><h1>"@ + heading + "</h1><p>"@ + sentence
                + "</p><p>If this tab does not close, return to Configure and try again.</p><script>const result = "@
                + message
                + ";const deliver = () => {if (window.opener && !window.opener.closed) {window.opener.postMessage(result, '*');}};deliver();window.setInterval(deliver, 500);</script></body></html>"@
        }
}

/// The page of an authorisation that succeeded: it posts the token and the state,
/// both in full, and no error.
pub open spec fn hands_over_token(page: HtmlReply, state: Seq<char>, token: Seq<char>) -> bool {
    &&& page.status == 200
    &&& page.content_type@ == "text/html; charset=utf-8"@
    &&& page.cache_control@ == "no-store"@
    &&& page_reports(
        page.body@,
        "Premiumize Authorized"@,
        "Premiumize authorized"@,
        "Your Premiumize credentials were sent to the configuration page. This tab will close automatically."@,
        seq![
            ("error"@, None),
            ("state"@, Some(state)),
            ("status"@, Some("success"@)),
            ("token"@, Some(token)),
            ("type"@, Some("mediafusion:premiumize-oauth"@)),
        ],
    )
}

/// The page of an authorisation that failed: it shows the error, and posts the
/// error and the state, both in full, and no token.
pub open spec fn tells_error(page: HtmlReply, state: Seq<char>, error: Seq<char>) -> bool {
    &&& page.status == 200
    &&& page.content_type@ == "text/html; charset=utf-8"@
    &&& page.cache_control@ == "no-store"@
    &&& page_reports(
        page.body@,
        "Premiumize Authorization Failed"@,
        "Premiumize authorization failed"@,
        error,
        seq![
            ("error"@, Some(error)),
            ("state"@, Some(state)),
            ("status"@, Some("error"@)),
            ("token"@, None),
            ("type"@, Some("mediafusion:premiumize-oauth"@)),
        ],
    )
}

proof fn lemma_page_reports(
    state: Option<Seq<char>>,
    token: Option<Seq<char>>,
    error: Option<Seq<char>>,
)
    ensures
        page_reports(
            result_page_text(state, token, error),
            if token is Some {
                "Premiumize Authorized"@
            } else {
                "Premiumize Authorization Failed"@
            },
            if token is Some {
                "Premiumize authorized"@
            } else {
                "Premiumize authorization failed"@
            },
            display_text(token, error),
            message_members(state, token, error),
        ),
{
    let sentence = flat_map(display_text(token, error), html_escapes());
    let members = message_members(state, token, error);
    let message = object_text(members, script_json_escapes());
    lemma_html_reads_back(display_text(token, error));
    embedded_object_reads_back(members);
    page_holds_no_foreign_markup(state, token, error);
    assert(html_unescaped(sentence) == display_text(token, error));
    assert(read_object(message) == Some(members));
}

proof fn lemma_failure_page(page: HtmlReply, state: Option<Seq<char>>, error: Seq<char>)
    requires
        is_result_page(page, state, None, Some(error)),
    ensures
        tells_error(
            page,
            match state {
                Some(text) => text,
                None => ""@,
            },
            error,
        ),
{
    lemma_page_reports(state, None, Some(error));
}

/// The page that reports an outcome posts the state (empty where there was none),
/// the token and the error exactly as given, and counts as a success where there
/// is a token.
pub proof fn result_page_posts_what_it_was_given(
    state: Option<&str>,
    token: Option<&str>,
    error: Option<&str>,
    page: HtmlReply,
)
    requires
        call_ensures(premiumize_oauth_result_page, (state, token, error), page),
    ensures
        page.status == 200,
        page.content_type@ == "text/html; charset=utf-8"@,
        page.cache_control@ == "no-store"@,
        page_reports(
            page.body@,
            if token is Some {
                "Premiumize Authorized"@
            } else {
                "Premiumize Authorization Failed"@
            },
            if token is Some {
                "Premiumize authorized"@
            } else {
                "Premiumize authorization failed"@
            },
            if token is Some {
                "Your Premiumize credentials were sent to the configuration page. This tab will close automatically."@
            } else if error is Some {
                error->0@
            } else {
                "Premiumize authorization failed."@
            },
            seq![
                (
                    "error"@,
                    match error {
                        Some(text) => Some(text@),
                        None => None,
                    },
                ),
                (
                    "state"@,
                    match state {
                        Some(text) => Some(text@),
                        None => Some(""@),
                    },
                ),
                (
                    "status"@,
                    if token is Some {
                        Some("success"@)
                    } else {
                        Some("error"@)
                    },
                ),
                (
                    "token"@,
                    match token {
                        Some(text) => Some(text@),
                        None => None,
                    },
                ),
                ("type"@, Some("mediafusion:premiumize-oauth"@)),
            ],
        ),
{
    let posted = seq![
        (
            "error"@,
            match error {
                Some(text) => Some(text@),
                None => None,
            },
        ),
        (
            "state"@,
            match state {
                Some(text) => Some(text@),
                None => Some(""@),
            },
        ),
        (
            "status"@,
            if token is Some {
                Some("success"@)
            } else {
                Some("error"@)
            },
        ),
        (
            "token"@,
            match token {
                Some(text) => Some(text@),
                None => None,
            },
        ),
        ("type"@, Some("mediafusion:premiumize-oauth"@)),
    ];
    assert(message_members(slice_text(state), slice_text(token), slice_text(error)) =~= posted);
    lemma_page_reports(slice_text(state), slice_text(token), slice_text(error));
}

/// The success page hands over the token and the state in full, whatever their
/// length and whatever characters they hold.
pub proof fn success_page_hands_over_the_token(state: Option<&str>, token: &str, page: HtmlReply)
    requires
        call_ensures(premiumize_oauth_success_page, (state, token), page),
    ensures
        hands_over_token(
            page,
            match state {
                Some(text) => text@,
                None => ""@,
            },
            token@,
        ),
{
    lemma_page_reports(slice_text(state), Some(token@), None);
}

/// The error page tells the error in full, on the page and to the window that
/// opened it.
pub proof fn error_page_tells_the_error(state: Option<&str>, message: &str, page: HtmlReply)
    requires
        call_ensures(premiumize_oauth_error_page, (state, message), page),
    ensures
        tells_error(
            page,
            match state {
                Some(text) => text@,
                None => ""@,
            },
            message@,
        ),
{
    lemma_failure_page(page, slice_text(state), message@);
}

/// Success pages tell their tokens and states apart: two with one body were made
/// of one token and one state, no state being the same as an empty one.
pub proof fn success_pages_tell_tokens_apart(
    one_state: Option<&str>,
    one_token: &str,
    other_state: Option<&str>,
    other_token: &str,
    one: HtmlReply,
    other: HtmlReply,
)
    requires
        call_ensures(premiumize_oauth_success_page, (one_state, one_token), one),
        call_ensures(premiumize_oauth_success_page, (other_state, other_token), other),
        one.body@ == other.body@,
    ensures
        one_token@ == other_token@,
        (match one_state {
            Some(text) => text@,
            None => ""@,
        }) == (match other_state {
            Some(text) => text@,
            None => ""@,
        }),
{
    let a = message_members(slice_text(one_state), Some(one_token@), None);
    let b = message_members(slice_text(other_state), Some(other_token@), None);
    let x = object_text(a, script_json_escapes());
    let y = object_text(b, script_json_escapes());
    let start = page_text(
        "Premiumize Authorized"@,
        "Premiumize authorized"@,
        flat_map(display_text(Some(one_token@), None), html_escapes()),
        seq![],
    );
    let end =
        ";const deliver = () => {if (window.opener && !window.opener.closed) {window.opener.postMessage(result, '*');}};deliver();window.setInterval(deliver, 500);</script></body></html>"@;
    let n = start.len() - end.len();
    assert(one.body@ =~= start.take(n) + x + end);
    assert(other.body@ =~= start.take(n) + y + end);
    assert(one.body@.len() == n + x.len() + end.len());
    assert(other.body@.len() == n + y.len() + end.len());
    assert(one.body@.subrange(n, n + x.len()) =~= x);
    assert(other.body@.subrange(n, n + y.len()) =~= y);
    embedded_object_reads_back(a);
    embedded_object_reads_back(b);
    assert(a == b);
    assert(a[3].1 == Some(one_token@) && b[3].1 == Some(other_token@));
    assert(a[1] == b[1]);
}

/// The address to which Premiumize sends the client back is a fixed path on the
/// gateway's own host.
pub proof fn redirect_uri_is_on_the_host(host_url: &str, uri: String)
    requires
        call_ensures(premiumize_oauth_redirect_uri, (host_url,), uri),
    ensures
        uri@ == host_url@ + "/streaming_provider/premiumize/oauth2_redirect"@,
{
}

/// An address at Premiumize that names the client, and from whose parameters
/// decoding gives the redirect address and the state.
pub open spec fn asks_premiumize(
    address: Seq<char>,
    client_id: Seq<char>,
    redirect_uri: Seq<char>,
    oauth_state: Seq<char>,
) -> bool {
    exists|uri: Seq<char>, state: Seq<char>|
        {
            &&& decode_utf8(#[trigger] percent_decoded(uri)) == redirect_uri
            &&& forall|i: int| 0 <= i < uri.len() ==> is_url_component_char(#[trigger] uri[i])
            &&& decode_utf8(#[trigger] percent_decoded(state)) == oauth_state
            &&& forall|i: int| 0 <= i < state.len() ==> is_url_component_char(#[trigger] state[i])
            &&& address == "https://www.premiumize.me/authorize?client_id="@ + client_id
                + "&response_type=code&redirect_uri="@ + uri + "&state="@ + state
        }
}

proof fn lemma_authorize_url(client_id: Seq<char>, host_url: Seq<char>, oauth_state: Seq<char>)
    ensures
        asks_premiumize(
            authorize_url_text(client_id, host_url, oauth_state),
            client_id,
            host_url + "/streaming_provider/premiumize/oauth2_redirect"@,
            oauth_state,
        ),
{
    let target = host_url + "/streaming_provider/premiumize/oauth2_redirect"@;
    let uri = percent_encoded(encode_utf8(target));
    let state = percent_encoded(encode_utf8(oauth_state));
    percent_encoding_reads_back(encode_utf8(target));
    percent_encoding_reads_back(encode_utf8(oauth_state));
    percent_encoded_is_url_safe(encode_utf8(target));
    percent_encoded_is_url_safe(encode_utf8(oauth_state));
    encode_utf8_decode_utf8(target);
    encode_utf8_decode_utf8(oauth_state);
    assert(decode_utf8(percent_decoded(uri)) == target);
    assert(decode_utf8(percent_decoded(state)) == oauth_state);
}

/// What a client that is to be sent to Premiumize is answered: the temporary
/// redirect, or a server error where the client identifier cannot stand in a
/// header.
pub open spec fn sends_to_premiumize(
    reply: RedirectReply,
    client_id: Seq<char>,
    redirect_uri: Seq<char>,
    oauth_state: Seq<char>,
) -> bool {
    if forall|i: int| 0 <= i < client_id.len() ==> !is_barred_from_headers(#[trigger] client_id[i]) {
        reply matches RedirectReply::Location { status, location } && status == 307
            && asks_premiumize(location@, client_id, redirect_uri, oauth_state)
    } else {
        reply matches RedirectReply::Unsendable { status, text } && status == 500 && text@
            == "failed to parse header value"@
    }
}

proof fn lemma_sends_to_premiumize(
    reply: RedirectReply,
    client_id: Seq<char>,
    host_url: Seq<char>,
    oauth_state: Seq<char>,
)
    requires
        is_temporary_redirect(reply, authorize_url_text(client_id, host_url, oauth_state)),
    ensures
        sends_to_premiumize(
            reply,
            client_id,
            host_url + "/streaming_provider/premiumize/oauth2_redirect"@,
            oauth_state,
        ),
{
    redirect_is_spoiled_by_the_client_id_only(client_id, host_url, oauth_state);
    header_value_is_told_by_its_characters(client_id);
    lemma_authorize_url(client_id, host_url, oauth_state);
}

/// The redirect for a given state leads to Premiumize with the client identifier,
/// the redirect address on the gateway's host, and that state, each in full.
pub proof fn redirect_for_a_state_leads_to_premiumize(
    client_id: &str,
    host_url: &str,
    oauth_state: &str,
    reply: RedirectReply,
)
    requires
        call_ensures(premiumize_authorize_with_state, (client_id, host_url, oauth_state), reply),
    ensures
        sends_to_premiumize(
            reply,
            client_id@,
            host_url@ + "/streaming_provider/premiumize/oauth2_redirect"@,
            oauth_state@,
        ),
{
    lemma_sends_to_premiumize(reply, client_id@, host_url@, oauth_state@);
}

/// An authorisation leads to Premiumize with the state that the client gave, or
/// with an identifier drawn at random where it gave none or an empty one. A
/// gateway without a client identifier refuses.
pub proof fn authorization_leads_to_premiumize(
    config: PremiumizeConfig,
    params: PremiumizeAuthorizeQuery,
    reply: Result<RedirectReply, JsonReply>,
)
    requires
        call_ensures(premiumize_authorize, (&config, &params), reply),
    ensures
        reply is Ok <==> (config.oauth_client_id matches Some(id) && id@.len() > 0),
        reply matches Ok(redirect) ==> exists|oauth_state: Seq<char>|
            {
                &&& #[trigger] sends_to_premiumize(
                    redirect,
                    config.oauth_client_id->0@,
                    config.host_url@ + "/streaming_provider/premiumize/oauth2_redirect"@,
                    oauth_state,
                )
                &&& (params.state matches Some(given) && given@.len() > 0) ==> oauth_state
                    == params.state->0@
                &&& !(params.state matches Some(given) && given@.len() > 0) ==> is_fresh_identifier(
                    oauth_state,
                )
            },
        reply matches Err(refusal) ==> refusal.status == 503 && (
        refusal.body matches Json::Object(members) && members@.len() == 1 && members@[0].0@
            == "detail"@ && members@[0].1 is Text && members@[0].1->Text_0@
            == "Premiumize OAuth client ID not configured. Set PREMIUMIZE_OAUTH_CLIENT_ID environment variable."@),
{
    match reply {
        Ok(redirect) => {
            let client_id = config.oauth_client_id->0@;
            let host_url = config.host_url@;
            let oauth_state = choose|oauth_state: Seq<char>|
                is_oauth_state(text_of(params.state), oauth_state) && is_temporary_redirect(
                    redirect,
                    #[trigger] authorize_url_text(client_id, host_url, oauth_state),
                );
            lemma_sends_to_premiumize(redirect, client_id, host_url, oauth_state);
        },
        Err(_) => {},
    }
}

/// A return from Premiumize is turned away where it tells an error, where it has
/// no code, and where the gateway is not configured, in this order and with the
/// error told on the page. Any other asks for a token, with the gateway's
/// registration, the code in full, and the redirect address.
pub proof fn return_from_premiumize_asks_for_a_token(
    config: PremiumizeConfig,
    params: PremiumizeOAuthRedirectQuery,
    step: Result<ProviderRequest, HtmlReply>,
)
    requires
        call_ensures(premiumize_oauth2_redirect, (&config, &params), step),
    ensures
        ({
            let state = match params.state {
                Some(text) => text@,
                None => ""@,
            };
            let failed = params.error is Some && params.error->0@.len() > 0;
            let described = params.error_description is Some && params.error_description->0@.len() > 0;
            let coded = params.code is Some && params.code->0@.len() > 0;
            let configured = config.oauth_client_id is Some && config.oauth_client_id->0@.len() > 0
                && config.oauth_client_secret is Some && config.oauth_client_secret->0@.len() > 0;
            &&& step is Ok <==> !failed && coded && configured
            &&& failed ==> tells_error(
                step->Err_0,
                state,
                "Premiumize authorization failed: "@ + if described {
                    params.error_description->0@
                } else {
                    params.error->0@
                },
            )
            &&& !failed && !coded ==> tells_error(
                step->Err_0,
                state,
                "Missing authorization code from Premiumize."@,
            )
            &&& !failed && coded && !configured ==> tells_error(
                step->Err_0,
                state,
                "Premiumize OAuth is not configured on this server. Set PREMIUMIZE_OAUTH_CLIENT_ID and PREMIUMIZE_OAUTH_CLIENT_SECRET."@,
            )
            &&& step matches Ok(request) ==> {
                &&& request.provider@ == "premiumize"@
                &&& request.url@ == "https://www.premiumize.me/token"@
                &&& request.payload matches Payload::Form(form)
                &&& form@.len() == 5
                &&& form@[0].0@ == "client_id"@ && form@[0].1@ == config.oauth_client_id->0@
                &&& form@[1].0@ == "client_secret"@ && form@[1].1@ == config.oauth_client_secret->0@
                &&& form@[2].0@ == "code"@ && form@[2].1@ == params.code->0@
                &&& form@[3].0@ == "grant_type"@ && form@[3].1@ == "authorization_code"@
                &&& form@[4].0@ == "redirect_uri"@ && form@[4].1@ == config.host_url@
                    + "/streaming_provider/premiumize/oauth2_redirect"@
            }
        }),
{
    match step {
        Err(page) => {
            lemma_failure_page(page, text_of(params.state), redirect_error(config, params)->0);
        },
        Ok(request) => {
            match request.payload {
                Payload::Form(form) => {
                    let texts = pair_texts(form@);
                    assert(texts.len() == form@.len());
                    assert(texts[0] == (form@[0].0@, form@[0].1@));
                    assert(texts[1] == (form@[1].0@, form@[1].1@));
                    assert(texts[2] == (form@[2].0@, form@[2].1@));
                    assert(texts[3] == (form@[3].0@, form@[3].1@));
                    assert(texts[4] == (form@[4].0@, form@[4].1@));
                },
                _ => {},
            }
        },
    }
}

/// A reply to the token request is a success exactly where it was answered, holds
/// no error text, and holds a token that is not empty. The token is then given
/// in full; any other reply gives the page that tells what went wrong.
pub proof fn token_reply_succeeds_with_its_token(
    state: Option<&str>,
    reply: ProviderReply,
    step: Result<String, TokenFailure>,
)
    requires
        call_ensures(premiumize_oauth2_redirect_reply, (state, &reply), step),
    ensures
        step is Ok <==> (reply matches ProviderReply::Answered { body, .. } && text_member(
            body,
            "error"@,
        ) is None && (text_member(body, "access_token"@) matches Some(token) && token.len() > 0)),
        step matches Ok(held) ==> (reply matches ProviderReply::Answered { body, .. }
            && text_member(body, "access_token"@) == Some(held@)),
        step matches Err(failure) ==> {
            &&& tells_error(
                failure.page,
                match state {
                    Some(text) => text@,
                    None => ""@,
                },
                failure.message@,
            )
            &&& failure.message@ == match reply {
                ProviderReply::Unreachable => "Failed to contact Premiumize. Please try again."@,
                ProviderReply::Unreadable => "Invalid response from Premiumize."@,
                ProviderReply::Answered { body, .. } => match text_member(body, "error"@) {
                    None => "Premiumize authorization completed, but no access token was returned."@,
                    Some(error) => if error == "invalid_grant"@ {
                        "That Premiumize login link expired or was already used. Open Configure and connect Premiumize again."@
                    } else if error == "invalid_client"@ {
                        "Premiumize OAuth client credentials are invalid. Check Premiumize OAuth settings on the server."@
                    } else {
                        error
                    },
                },
            }
        },
{
    match step {
        Err(failure) => {
            lemma_failure_page(failure.page, slice_text(state), failure.message@);
        },
        Ok(_) => {},
    }
}

} // verus!
