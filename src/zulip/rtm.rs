//! Reading operator messages from the chat's event queue.
use vstd::prelude::*;
use crate::text::{push_decimal_signed, push_str, same_text, starts_with, starts_with_seq, string_from, dec_signed};

verus! {

/// The mention that addresses the bot.
pub open spec fn mention_of(bot_name: Seq<char>) -> Seq<char> {
    "@**"@ + bot_name + "** "@
}

/// The mention that addresses the bot.
pub fn bot_mention(bot_name: &str) -> (r: String)
    ensures
        r@ == mention_of(bot_name@),
{
    let mut s = string_from("@**");
    push_str(&mut s, bot_name);
    push_str(&mut s, "** ");
    s
}

/// The command in a message: what follows the mention, where the message
/// starts with it and was posted to the stream and topic listened to.
pub open spec fn command_in(
    mention: Seq<char>,
    content: Seq<char>,
    recipient: Option<Seq<char>>,
    subject: Option<Seq<char>>,
    stream: Seq<char>,
    topic: Seq<char>,
) -> Option<Seq<char>> {
    if starts_with_seq(content, mention) && recipient == Some(stream) && subject == Some(topic) {
        Some(content.subrange(mention.len() as int, content.len() as int))
    } else {
        None
    }
}

fn same_opt(a: &Option<String>, b: &str) -> (r: bool)
    ensures
        r == (match a {
            Some(x) => Some(x@),
            None => None::<Seq<char>>,
        } == Some(b@)),
{
    match a {
        Some(x) => same_text(x.as_str(), b),
        None => false,
    }
}

/// The command in a chat message addressed to the bot in the stream and
/// topic it listens to.
pub fn command_text(
    mention: &str,
    content: &str,
    recipient: &Option<String>,
    subject: &Option<String>,
    stream: &str,
    topic: &str,
) -> (r: Option<String>)
    ensures
        crate::clock::opt_view(r) == command_in(
            mention@,
            content@,
            crate::clock::opt_view(*recipient),
            crate::clock::opt_view(*subject),
            stream@,
            topic@,
        ),
{
    if starts_with(content, mention) && same_opt(recipient, stream) && same_opt(subject, topic) {
        let cs = crate::text::chars_of(content);
        let m = mention.unicode_len();
        Some(crate::text::string_of_range(&cs, m, cs.len()))
    } else {
        None
    }
}

/// The address that registers an event queue.
pub fn register_url(zulip_url: &str) -> (r: String)
    ensures
        r@ == "https://"@ + zulip_url@ + "/api/v1/register"@,
{
    let mut s = string_from("https://");
    push_str(&mut s, zulip_url);
    push_str(&mut s, "/api/v1/register");
    s
}

/// The address that reads the events after `last_event_id` from a queue.
pub fn events_url(zulip_url: &str, queue_id: &str, last_event_id: i64) -> (r: String)
    ensures
        r@ == "https://"@ + zulip_url@ + "/api/v1/events?queue_id="@ + queue_id@ + "&last_event_id="@
            + dec_signed(last_event_id as int),
{
    let mut s = string_from("https://");
    push_str(&mut s, zulip_url);
    push_str(&mut s, "/api/v1/events?queue_id=");
    push_str(&mut s, queue_id);
    push_str(&mut s, "&last_event_id=");
    push_decimal_signed(&mut s, last_event_id);
    s
}

/// The id of the last event read: the latest one that carried an id, or
/// `current` where none did.
pub open spec fn last_id(current: i64, ids: Seq<Option<i64>>) -> i64
    decreases ids.len(),
{
    if ids.len() == 0 {
        current
    } else {
        match ids.last() {
            Some(v) => v,
            None => last_id(current, ids.drop_last()),
        }
    }
}

/// The id of the last event read: the latest one that carried an id, or
/// `current` where none did.
pub fn next_event_id(current: i64, ids: &Vec<Option<i64>>) -> (r: i64)
    ensures
        r == last_id(current, ids@),
{
    let mut r = current;
    let mut i: usize = 0;
    while i < ids.len()
        invariant
            i <= ids@.len(),
            r == last_id(current, ids@.subrange(0, i as int)),
        decreases ids@.len() - i,
    {
        assert(ids@.subrange(0, i + 1).drop_last() =~= ids@.subrange(0, i as int));
        if let Some(v) = ids[i] {
            r = v;
        }
        i += 1;
    }
    assert(ids@.subrange(0, i as int) =~= ids@);
    r
}

} // verus!
