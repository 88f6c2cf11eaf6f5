//! Posting messages to the chat: the request's form body and credentials.
use vstd::prelude::*;
use crate::text::{push_str, string_from};

verus! {

/// What `urlencoding::encode` makes of a text.
pub uninterp spec fn url_encoded(s: Seq<char>) -> Seq<char>;

/// What the standard `base64` engine makes of a text's UTF-8 bytes.
pub uninterp spec fn base64_of(s: Seq<char>) -> Seq<char>;

/// Relies on `urlencoding::encode`: the encoding depends on the text alone.
#[verifier::external_body]
fn url_encode(s: &str) -> (r: String)
    ensures
        r@ == url_encoded(s@),
{
    urlencoding::encode(s).into_owned()
}

/// Relies on `base64::Engine::encode` with the standard engine: the encoding
/// depends on the bytes alone.
#[verifier::external_body]
fn base64_encode(s: &str) -> (r: String)
    ensures
        r@ == base64_of(s@),
{
    base64::Engine::encode(&base64::engine::general_purpose::STANDARD, s.as_bytes())
}

/// The form body that posts `text` to a stream and topic.
pub open spec fn message_body(stream: Seq<char>, topic: Seq<char>, text: Seq<char>) -> Seq<char> {
    "type=stream&to="@ + url_encoded(stream) + "&subject="@ + url_encoded(topic) + "&content="@
        + url_encoded(text)
}

/// The form body that posts `text` to a stream and topic.
pub fn message_form_body(stream: &str, topic: &str, text: &str) -> (r: String)
    ensures
        r@ == message_body(stream@, topic@, text@),
{
    let mut s = string_from("type=stream&to=");
    let e = url_encode(stream);
    push_str(&mut s, e.as_str());
    push_str(&mut s, "&subject=");
    let e = url_encode(topic);
    push_str(&mut s, e.as_str());
    push_str(&mut s, "&content=");
    let e = url_encode(text);
    push_str(&mut s, e.as_str());
    s
}

/// The value of the `Authorization` header of the bot.
pub fn basic_auth_header(bot_id: &str, token: &str) -> (r: String)
    ensures
        r@ == "Basic "@ + base64_of(bot_id@ + ":"@ + token@),
{
    let mut creds = string_from(bot_id);
    push_str(&mut creds, ":");
    push_str(&mut creds, token);
    let mut s = string_from("Basic ");
    let e = base64_encode(creds.as_str());
    push_str(&mut s, e.as_str());
    s
}

/// The address that messages are posted to.
pub fn messages_url(zulip_url: &str) -> (r: String)
    ensures
        r@ == "https://"@ + zulip_url@ + "/api/v1/messages"@,
{
    let mut s = string_from("https://");
    push_str(&mut s, zulip_url);
    push_str(&mut s, "/api/v1/messages");
    s
}

} // verus!
