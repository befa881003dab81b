//! Requests to providers, what came back of them, and the answers of the
//! gateway's own routes.

use crate::json::{is_text_object, is_valid, names_are_distinct, text_object_is_valid, Json};
use vstd::prelude::*;
use vstd::string::*;
use vstd::utf8::*;

verus! {

/// What a request to a provider carries.
pub enum Payload {
    /// Nothing: the request is a `GET`.
    Nothing,
    /// A JSON value, by `POST`.
    Json(Json),
    /// Form fields, by `POST`.
    Form(Vec<(String, String)>),
}

/// A request to be sent to a provider.
pub struct ProviderRequest {
    pub provider: String,
    pub url: String,
    pub payload: Payload,
}

/// What came of a request to a provider.
pub enum ProviderReply {
    /// The request failed.
    Unreachable,
    /// The body of the response was no JSON.
    Unreadable,
    /// A response with a JSON body.
    Answered { status: u16, body: Json },
}

/// An answer with a JSON body.
pub struct JsonReply {
    pub status: u16,
    pub body: Json,
}

/// An answer that is to send the client elsewhere.
pub enum RedirectReply {
    /// The redirect, with the address in its `Location` header.
    Location { status: u16, location: String },
    /// The plain-text error where the address cannot stand in a header.
    Unsendable { status: u16, text: String },
}

/// An answer with an HTML body.
pub struct HtmlReply {
    pub status: u16,
    pub content_type: String,
    pub cache_control: String,
    pub body: String,
}

/// What a provider sent is a valid value, where it sent one.
pub open spec fn is_valid_reply(reply: ProviderReply) -> bool {
    reply matches ProviderReply::Answered { body, .. } ==> is_valid(body)
}

/// The pairs of a list, seen as texts.
pub open spec fn pair_texts(pairs: Seq<(String, String)>) -> Seq<(Seq<char>, Seq<char>)> {
    pairs.map_values(|p: (String, String)| (p.0@, p.1@))
}

/// An answer of that status whose body is `{"detail": text}`.
pub open spec fn is_detail(reply: JsonReply, status: u16, text: Seq<char>) -> bool {
    &&& reply.status == status
    &&& is_text_object(reply.body, seq![("detail"@, text)])
}

/// A status code of three digits.
pub open spec fn is_status_code(status: u16) -> bool {
    100 <= status <= 999
}

/// A status code that reports success.
pub open spec fn is_success(status: u16) -> bool {
    200 <= status <= 299
}

/// Bytes that can stand in the value of an HTTP header: no control character but
/// the tab.
pub open spec fn is_header_value(bytes: Seq<u8>) -> bool {
    forall|i: int|
        0 <= i < bytes.len() ==> (#[trigger] bytes[i] >= 32 && bytes[i] != 127) || bytes[i] == 9
}

/// The temporary redirect to an address, or the error where the address cannot
/// stand in a header.
pub open spec fn is_temporary_redirect(reply: RedirectReply, url: Seq<char>) -> bool {
    if is_header_value(encode_utf8(url)) {
        reply matches RedirectReply::Location { status, location } && status == 307 && location@
            == url
    } else {
        reply matches RedirectReply::Unsendable { status, text } && status == 500 && text@
            == "failed to parse header value"@
    }
}

/// The temporary redirect to an address, or the error where the address cannot
/// stand in a header.
pub fn temporary_redirect(location: String) -> (reply: RedirectReply)
    ensures
        is_temporary_redirect(reply, location@),
{
    let bytes = location.as_str().as_bytes();
    let mut i: usize = 0;
    while i < bytes.len()
        invariant
            i <= bytes@.len(),
            bytes@ == encode_utf8(location@),
            forall|j: int|
                0 <= j < i ==> (#[trigger] bytes@[j] >= 32 && bytes@[j] != 127) || bytes@[j] == 9,
        decreases bytes.len() - i,
    {
        let b: u8 = bytes[i];
        if !((b >= 32 && b != 127) || b == 9) {
            return RedirectReply::Unsendable {
                status: 500,
                text: "failed to parse header value".to_owned(),
            };
        }
        i = i + 1;
    }
    RedirectReply::Location { status: 307, location }
}

/// A list of pairs of owned texts.
pub fn owned_pairs(pairs: &[(&str, &str)]) -> (owned: Vec<(String, String)>)
    ensures
        pair_texts(owned@) == pairs@.map_values(|p: (&str, &str)| (p.0@, p.1@)),
{
    let mut owned: Vec<(String, String)> = Vec::new();
    let mut i: usize = 0;
    while i < pairs.len()
        invariant
            i <= pairs@.len(),
            owned@.len() == i,
            forall|j: int|
                0 <= j < i ==> {
                    &&& (#[trigger] owned@[j]).0@ == pairs@[j].0@
                    &&& owned@[j].1@ == pairs@[j].1@
                },
        decreases pairs.len() - i,
    {
        owned.push((pairs[i].0.to_owned(), pairs[i].1.to_owned()));
        i = i + 1;
    }
    assert(pair_texts(owned@) =~= pairs@.map_values(|p: (&str, &str)| (p.0@, p.1@)));
    owned
}

/// An object whose members are these texts, in this order. It is valid where
/// their names are distinct.
pub fn text_object(pairs: &[(&str, &str)]) -> (object: Json)
    ensures
        is_text_object(object, pairs@.map_values(|p: (&str, &str)| (p.0@, p.1@))),
        names_are_distinct(pairs@.map_values(|p: (&str, &str)| (p.0@, p.1@))) ==> is_valid(object),
{
    let mut members: Vec<(String, Json)> = Vec::new();
    let mut i: usize = 0;
    while i < pairs.len()
        invariant
            i <= pairs@.len(),
            members@.len() == i,
            forall|j: int|
                0 <= j < i ==> {
                    &&& (#[trigger] members@[j]).0@ == pairs@[j].0@
                    &&& members@[j].1 matches Json::Text(text) && text@ == pairs@[j].1@
                },
        decreases pairs.len() - i,
    {
        members.push((pairs[i].0.to_owned(), Json::Text(pairs[i].1.to_owned())));
        i = i + 1;
    }
    let object = Json::Object(members);
    proof {
        let texts = pairs@.map_values(|p: (&str, &str)| (p.0@, p.1@));
        if names_are_distinct(texts) {
            text_object_is_valid(object, texts);
        }
    }
    object
}

/// An answer of that status whose body is `{"detail": text}`.
pub fn detail(status: u16, text: &str) -> (reply: JsonReply)
    ensures
        is_detail(reply, status, text@),
        is_valid(reply.body),
{
    JsonReply { status, body: text_object(&[("detail", text)]) }
}

/// The object made of a list of pairs has one member for each pair, in order:
/// its name, and its text in full.
pub proof fn text_object_holds_the_pairs(pairs: &[(&str, &str)], object: Json)
    requires
        call_ensures(text_object, (pairs,), object),
    ensures
        object matches Json::Object(members) && members@.len() == pairs@.len() && forall|i: int|
            0 <= i < pairs@.len() ==> (#[trigger] members@[i]).0@ == pairs@[i].0@
                && members@[i].1 is Text && members@[i].1->Text_0@ == pairs@[i].1@,
{
    let texts = pairs@.map_values(|p: (&str, &str)| (p.0@, p.1@));
    assert(texts.len() == pairs@.len());
}

/// An object of texts has exactly the given members, in order.
pub proof fn text_object_has_its_members(value: Json, members: Seq<(Seq<char>, Seq<char>)>)
    requires
        is_text_object(value, members),
    ensures
        value matches Json::Object(held) && held@.len() == members.len() && forall|i: int|
            0 <= i < members.len() ==> (#[trigger] held@[i]).0@ == members[i].0
                && held@[i].1 is Text && held@[i].1->Text_0@ == members[i].1,
{
}

/// The list made of pairs of texts holds each pair, in order and in full.
pub proof fn owned_pairs_hold_the_pairs(pairs: &[(&str, &str)], owned: Vec<(String, String)>)
    requires
        call_ensures(owned_pairs, (pairs,), owned),
    ensures
        owned@.len() == pairs@.len(),
        forall|i: int|
            0 <= i < pairs@.len() ==> (#[trigger] owned@[i]).0@ == pairs@[i].0@ && owned@[i].1@
                == pairs@[i].1@,
{
    let texts = pairs@.map_values(|p: (&str, &str)| (p.0@, p.1@));
    assert(texts.len() == pairs@.len());
    assert(pair_texts(owned@).len() == owned@.len());
    assert forall|i: int| 0 <= i < pairs@.len() implies (#[trigger] owned@[i]).0@ == pairs@[i].0@
        && owned@[i].1@ == pairs@[i].1@ by {
        assert(pair_texts(owned@)[i] == texts[i]);
    }
}

/// An answer with a detail has its status, and a body of that one text.
pub proof fn detail_has_one_text(reply: JsonReply, status: u16, text: Seq<char>)
    requires
        is_detail(reply, status, text),
    ensures
        reply.status == status,
        reply.body matches Json::Object(members) && members@.len() == 1 && members@[0].0@
            == "detail"@ && members@[0].1 is Text && members@[0].1->Text_0@ == text,
{
}

/// A character that cannot stand in an HTTP header: a control character other
/// than the tab.
pub open spec fn is_barred_from_headers(c: char) -> bool {
    ((c as int) < 32 && c != '\t') || c as int == 127
}

proof fn lemma_scalar_in_header(c: char)
    ensures
        is_header_value(encode_scalar(c as u32)) <==> !is_barred_from_headers(c),
{
    let v = c as u32;
    char_is_scalar(c);
    let bytes = encode_scalar(v);
    if v <= 0x7f {
        assert((v & 0x7f) as u8 as u32 == v) by (bit_vector)
            requires
                v <= 0x7f,
        ;
        assert(bytes[0] as u32 == v);
        if is_barred_from_headers(c) {
            assert(!((bytes[0] >= 32 && bytes[0] != 127) || bytes[0] == 9));
        }
    } else {
        assert((0xC0u8 | ((v >> 6) & 0x1F) as u8) >= 0x80) by (bit_vector);
        assert((0xE0u8 | ((v >> 12) & 0x0F) as u8) >= 0x80) by (bit_vector);
        assert((0xF0u8 | ((v >> 18) & 0x7) as u8) >= 0x80) by (bit_vector);
        assert((0x80u8 | (v & 0x3F) as u8) >= 0x80) by (bit_vector);
        assert((0x80u8 | ((v >> 6) & 0x3F) as u8) >= 0x80) by (bit_vector);
        assert((0x80u8 | ((v >> 12) & 0x3F) as u8) >= 0x80) by (bit_vector);
        assert forall|i: int| 0 <= i < bytes.len() implies #[trigger] bytes[i] >= 0x80 by {}
    }
}

/// A text can stand in an HTTP header exactly where none of its characters is
/// barred from one.
pub proof fn header_value_is_told_by_its_characters(text: Seq<char>)
    ensures
        is_header_value(encode_utf8(text)) <==> forall|i: int|
            0 <= i < text.len() ==> !is_barred_from_headers(#[trigger] text[i]),
    decreases text.len(),
{
    let bytes = encode_utf8(text);
    if text.len() > 0 {
        let first = encode_scalar(text[0] as u32);
        let tail = text.drop_first();
        let rest = encode_utf8(tail);
        lemma_scalar_in_header(text[0]);
        header_value_is_told_by_its_characters(tail);
        assert(bytes == first + rest);
        if is_header_value(bytes) {
            assert forall|i: int| 0 <= i < first.len() implies (#[trigger] first[i] >= 32 && first[i]
                != 127) || first[i] == 9 by {
                assert(bytes[i] == first[i]);
            }
            assert forall|i: int| 0 <= i < rest.len() implies (#[trigger] rest[i] >= 32 && rest[i]
                != 127) || rest[i] == 9 by {
                assert(bytes[first.len() + i] == rest[i]);
            }
            assert forall|i: int| 0 <= i < text.len() implies !is_barred_from_headers(
                #[trigger] text[i],
            ) by {
                if i > 0 {
                    assert(tail[i - 1] == text[i]);
                }
            }
        } else if forall|i: int| 0 <= i < text.len() ==> !is_barred_from_headers(#[trigger] text[i]) {
            assert forall|i: int| 0 <= i < tail.len() implies !is_barred_from_headers(
                #[trigger] tail[i],
            ) by {
                assert(tail[i] == text[i + 1]);
            }
        }
    }
}

/// A redirect carries its address in full wherever a header can hold it, and is a
/// server error where one of its characters is barred from headers.
pub proof fn redirect_carries_its_address(location: String, reply: RedirectReply)
    requires
        call_ensures(temporary_redirect, (location,), reply),
    ensures
        (forall|i: int| 0 <= i < location@.len() ==> !is_barred_from_headers(#[trigger] location@[i]))
            ==> (reply matches RedirectReply::Location { status, location: sent } && status == 307
            && sent@ == location@),
        !(forall|i: int|
            0 <= i < location@.len() ==> !is_barred_from_headers(#[trigger] location@[i])) ==> (
        reply matches RedirectReply::Unsendable { status, text } && status == 500 && text@
            == "failed to parse header value"@),
{
    header_value_is_told_by_its_characters(location@);
}

} // verus!
