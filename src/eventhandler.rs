//! The dispatcher: the one owner of the daemon's state. Each event yields the
//! new state and the effects for the caller to carry out, in order.
use vstd::prelude::*;
use crate::clock::{opt_view, utc_dmy, utc_dmy_of, utc_text, utc_text_of};
use crate::event::{Event, User};
use crate::folding::{lower_of, to_lower};
use crate::recency::{holds_key, snapshots_of, RecencyBuffer};
use crate::signup::rules::{
    actions_text, caught_update, decision, describe_actions, endpoint_of, friendly_text,
    has_name, notices_of, store_error_text, swept, verdict_view, with_enabled,
    contains_ignoring_case, seen_among, Action, Rule, RuleStoreError, ScriptError, SignupRulesManager, count_matching, listed_name,
    renewed, notice_views,
};
use crate::pattern::{regex_compiles, regex_matches};
use crate::text::{
    dec, dec_signed, join, join_seq, push_decimal, push_decimal_signed, push_str,
    string_from, views,
};

verus! {

/// The chat channels the daemon writes to.
#[derive(PartialEq, Eq, Structural, Clone, Copy, Debug)]
pub enum Channel {
    /// Where operators talk to the daemon.
    Main,
    /// Where match notifications go.
    Notify,
}

/// Something for the caller to carry out.
pub enum Effect {
    /// Post `text` to a chat channel.
    Post { channel: Channel, text: String },
    /// Send the moderation request to `path` on the moderation host after
    /// `delay_ms` milliseconds.
    ModRequest { path: String, delay_ms: u64 },
    /// Write the rule catalogue to its file.
    Persist,
    /// Tell the operators that the user was seen, with these snapshots.
    ReportSeen { snapshots: Vec<User> },
}

/// The content of an effect.
pub enum EffectView {
    Post(Channel, Seq<char>),
    ModRequest(Seq<char>, u64),
    Persist,
    ReportSeen(nat),
}

/// The content of an effect.
pub open spec fn effect_view(e: Effect) -> EffectView {
    match e {
        Effect::Post { channel, text } => EffectView::Post(channel, text@),
        Effect::ModRequest { path, delay_ms } => EffectView::ModRequest(path@, delay_ms),
        Effect::Persist => EffectView::Persist,
        Effect::ReportSeen { snapshots } => EffectView::ReportSeen(snapshots@.len()),
    }
}

/// The contents of a list of effects.
pub open spec fn effect_views(v: Seq<Effect>) -> Seq<EffectView> {
    v.map_values(|e: Effect| effect_view(e))
}

/// The effects are one report of snapshots with the same values as `expected`.
pub open spec fn reports_seen(effects: Seq<Effect>, expected: Seq<User>) -> bool {
    effects.len() == 1 && match effects[0] {
        Effect::ReportSeen { snapshots } => {
            &&& snapshots@.len() == expected.len()
            &&& forall|i: int| 0 <= i < expected.len() ==> crate::event::same_user(#[trigger] snapshots@[i], expected[i])
        },
        _ => false,
    }
}

/// How many users the notification ring remembers.
pub const NOTIFIED_LIMIT: usize = 5;

/// A link to a user's profile, as a chat link with the name as its label.
pub open spec fn mod_link(u: Seq<char>) -> Seq<char> {
    "<https://lichess.org/@/"@ + u + "?mod|"@ + u + ">"@
}

/// The recent matches of a rule as chat text.
pub open spec fn recent_text(mrc: Seq<Seq<char>>) -> Seq<char> {
    if mrc.len() == 0 {
        "None"@
    } else {
        join_seq(mrc.map_values(|x: Seq<char>| mod_link(x)), ", "@)
    }
}

/// The message for a dry run that would match.
pub open spec fn would_take_text(rule: Rule) -> Seq<char> {
    "Rule "@ + rule.name@ + " would take these actions: "@ + actions_text(rule.actions@)
}

/// The notification of a match.
pub open spec fn notify_text(rule_name: Seq<char>, u: Seq<char>) -> Seq<char> {
    "Rule "@ + rule_name + " match: https://lichess.org/@/"@ + u
}

/// The summary of a match, with the rule's counts before this match.
pub open spec fn summary_text(rule: Rule, u: Seq<char>) -> Seq<char> {
    "Rule "@ + rule.name@ + " match: "@ + friendly_text(rule.criterion) + " on "@ + mod_link(u)
        + ". "@ + dec(rule.match_count as nat) + " previous matches. Recent matches: "@
        + recent_text(views(rule.most_recent_caught@))
}

/// The report of a criterion that could not be decided.
pub open spec fn error_text(rule_name: Seq<char>, u: Seq<char>, e: Seq<char>) -> Seq<char> {
    "Error on `"@ + rule_name + "` for user `"@ + u + "` (probably in Lua snippet): `"@ + e
        + "`"@
}

/// The delay of one action of a rule: none where the rule asks for none;
/// otherwise the signup's delay, with a second and a half more for closing.
pub open spec fn action_delay(no_delay: bool, a: Action, delay: u64) -> u64 {
    if no_delay {
        0
    } else if a == Action::Close {
        (delay + 1500) as u64
    } else {
        delay
    }
}

/// The notification ring after `u` was notified: newest first, at most five.
pub open spec fn ring_after(notified: Seq<Seq<char>>, u: Seq<char>) -> Seq<Seq<char>> {
    if notified.len() >= 5 {
        (seq![u] + notified).subrange(0, 5)
    } else {
        seq![u] + notified
    }
}

/// The effects of the actions of a matching rule, and the notification ring
/// after them.
pub open spec fn action_effects(
    actions: Seq<Action>,
    rule: Rule,
    u: Seq<char>,
    delay: u64,
    notified: Seq<Seq<char>>,
) -> (Seq<EffectView>, Seq<Seq<char>>)
    decreases actions.len(),
{
    if actions.len() == 0 {
        (Seq::empty(), notified)
    } else {
        let (effs, n) = action_effects(actions.drop_last(), rule, u, delay, notified);
        let a = actions.last();
        match endpoint_of(a, u) {
            Some(url) => (effs.push(EffectView::ModRequest(url, action_delay(rule.no_delay, a, delay))), n),
            None => if seen_among(n, u) {
                (effs, n)
            } else {
                (effs.push(EffectView::Post(Channel::Notify, notify_text(rule.name@, u))), ring_after(n, u))
            },
        }
    }
}

/// The verdict of a rule on a user at `now`: a disabled or expired rule does
/// not match, nor does a rule for suspicious addresses on another address.
pub open spec fn rule_verdict(rule: Rule, user: User, now: i64, script: Result<bool, Seq<char>>) -> Result<bool, Seq<char>> {
    if !rule.enabled || (rule.expiry matches Some(e) && now > e) {
        Ok(false)
    } else if rule.susp_ip && !user.susp_ip {
        Ok(false)
    } else {
        decision(rule.criterion, user, script)
    }
}

/// The effects of one rule on a signup (a dry run when `hypothetical`), the
/// notification ring after them, and whether the rule matched for real.
pub open spec fn rule_effects(
    rule: Rule,
    u: Seq<char>,
    hypothetical: bool,
    delay: u64,
    verdict: Result<bool, Seq<char>>,
    notified: Seq<Seq<char>>,
) -> (Seq<EffectView>, Seq<Seq<char>>, bool) {
    let pre: Seq<EffectView> = if hypothetical && verdict == Ok::<bool, Seq<char>>(true) {
        seq![EffectView::Post(Channel::Main, would_take_text(rule))]
    } else {
        Seq::empty()
    };
    match verdict {
        Ok(b) => if b && !hypothetical {
            let (ae, n) = action_effects(rule.actions@, rule, u, delay, notified);
            let tail: Seq<EffectView> = if rule.actions@ == seq![Action::NotifyZulip] {
                Seq::empty()
            } else {
                seq![EffectView::Post(Channel::Main, summary_text(rule, u))]
            };
            (pre + ae + tail, n, true)
        } else {
            (pre, notified, false)
        },
        Err(e) => (pre.push(EffectView::Post(Channel::Main, error_text(rule.name@, u, e))), notified, false),
    }
}

/// The script verdict handed in for rule `i`; a missing one is an error.
pub open spec fn script_at(scripts: Seq<Result<bool, ScriptError>>, i: int) -> Result<bool, Seq<char>> {
    if 0 <= i < scripts.len() {
        verdict_view(scripts[i])
    } else {
        Err("Script was not evaluated"@)
    }
}


/// The effects of a signup on the rules in order, the notification ring after
/// them, and which rules matched for real.
pub open spec fn signup_pass(
    rules: Seq<Rule>,
    user: User,
    hypothetical: bool,
    now: i64,
    delay: u64,
    scripts: Seq<Result<bool, ScriptError>>,
    notified: Seq<Seq<char>>,
) -> (Seq<EffectView>, Seq<Seq<char>>, Seq<bool>)
    decreases rules.len(),
{
    if rules.len() == 0 {
        (Seq::empty(), notified, Seq::empty())
    } else {
        let (e, n, m) = signup_pass(rules.drop_last(), user, hypothetical, now, delay, scripts, notified);
        let i = rules.len() - 1;
        let (re, rn, rm) = rule_effects(
            rules.last(),
            user.username.0@,
            hypothetical,
            delay,
            rule_verdict(rules.last(), user, now, script_at(scripts, i)),
            n,
        );
        (e + re, rn, m.push(rm))
    }
}

/// Rule `i` took note of a real match: it matched, and `u`, case aside, was
/// not among its recent matches.
pub open spec fn takes_note(rules: Seq<Rule>, matched: Seq<bool>, i: int, u: Seq<char>) -> bool {
    matched[i] && !seen_among(views(rules[i].most_recent_caught@), u)
}

/// `after` is `before` once every rule that matched took note of `u` at `now`.
pub open spec fn noted(before: Seq<Rule>, after: Seq<Rule>, matched: Seq<bool>, u: Seq<char>, now: i64) -> bool {
    &&& after.len() == before.len()
    &&& forall|i: int|
        0 <= i < before.len() ==> if takes_note(before, matched, i, u) {
            caught_update(before[i], #[trigger] after[i], u, now)
        } else {
            after[i] == before[i]
        }
}

proof fn lemma_pass_len(
    rules: Seq<Rule>,
    user: User,
    hypothetical: bool,
    now: i64,
    delay: u64,
    scripts: Seq<Result<bool, ScriptError>>,
    notified: Seq<Seq<char>>,
)
    ensures
        signup_pass(rules, user, hypothetical, now, delay, scripts, notified).2.len() == rules.len(),
    decreases rules.len(),
{
    if rules.len() > 0 {
        lemma_pass_len(rules.drop_last(), user, hypothetical, now, delay, scripts, notified);
    }
}

proof fn lemma_action_effects_ring(actions: Seq<Action>, rule: Rule, u: Seq<char>, delay: u64, notified: Seq<Seq<char>>)
    requires
        notified.len() <= NOTIFIED_LIMIT,
    ensures
        action_effects(actions, rule, u, delay, notified).1.len() <= NOTIFIED_LIMIT,
    decreases actions.len(),
{
    if actions.len() > 0 {
        lemma_action_effects_ring(actions.drop_last(), rule, u, delay, notified);
    }
}

proof fn lemma_rule_effects_ring(
    rule: Rule,
    u: Seq<char>,
    hypothetical: bool,
    delay: u64,
    verdict: Result<bool, Seq<char>>,
    notified: Seq<Seq<char>>,
)
    requires
        notified.len() <= NOTIFIED_LIMIT,
    ensures
        rule_effects(rule, u, hypothetical, delay, verdict, notified).1.len() <= NOTIFIED_LIMIT,
{
    lemma_action_effects_ring(rule.actions@, rule, u, delay, notified);
}

/// The state of the daemon.
pub struct Dispatcher {
    pub rule_manager: SignupRulesManager,
    /// When the upstream stream last sent something, in milliseconds.
    pub latest_event: i64,
    /// The users notified last, newest first.
    pub recently_notified: Vec<String>,
    pub recently_checked: RecencyBuffer,
}

fn message3(a: &str, b: &str, c: &str) -> (r: String)
    ensures
        r@ == a@ + b@ + c@,
{
    let mut s = string_from(a);
    push_str(&mut s, b);
    push_str(&mut s, c);
    s
}

fn mod_link_text(u: &str) -> (r: String)
    ensures
        r@ == mod_link(u@),
{
    let mut s = string_from("<https://lichess.org/@/");
    push_str(&mut s, u);
    push_str(&mut s, "?mod|");
    push_str(&mut s, u);
    push_str(&mut s, ">");
    s
}

fn recent_matches_text(mrc: &Vec<String>) -> (r: String)
    ensures
        r@ == recent_text(views(mrc@)),
{
    if mrc.len() == 0 {
        return string_from("None");
    }
    let mut links: Vec<String> = Vec::new();
    let mut i: usize = 0;
    while i < mrc.len()
        invariant
            i <= mrc@.len(),
            views(links@) == views(mrc@).subrange(0, i as int).map_values(|x: Seq<char>| mod_link(x)),
        decreases mrc@.len() - i,
    {
        let ghost before = links@;
        links.push(mod_link_text(mrc[i].as_str()));
        assert(views(links@) =~= views(before).push(mod_link(mrc@[i as int]@)));
        assert(views(mrc@).subrange(0, i + 1).map_values(|x: Seq<char>| mod_link(x)) =~= views(mrc@).subrange(
            0,
            i as int,
        ).map_values(|x: Seq<char>| mod_link(x)).push(mod_link(mrc@[i as int]@)));
        i += 1;
    }
    assert(views(mrc@).subrange(0, i as int) =~= views(mrc@));
    join(&links, ", ")
}

fn summary(rule: &Rule, u: &str) -> (r: String)
    ensures
        r@ == summary_text(*rule, u@),
{
    let mut s = string_from("Rule ");
    push_str(&mut s, rule.name.as_str());
    push_str(&mut s, " match: ");
    let f = rule.criterion.friendly();
    push_str(&mut s, f.as_str());
    push_str(&mut s, " on ");
    let l = mod_link_text(u);
    push_str(&mut s, l.as_str());
    push_str(&mut s, ". ");
    push_decimal(&mut s, rule.match_count as u64);
    push_str(&mut s, " previous matches. Recent matches: ");
    let rt = recent_matches_text(&rule.most_recent_caught);
    push_str(&mut s, rt.as_str());
    s
}

fn would_take(rule: &Rule) -> (r: String)
    ensures
        r@ == would_take_text(*rule),
{
    let mut s = message3("Rule ", rule.name.as_str(), " would take these actions: ");
    let a = describe_actions(&rule.actions);
    push_str(&mut s, a.as_str());
    s
}

fn error_report(rule_name: &str, u: &str, e: &str) -> (r: String)
    ensures
        r@ == error_text(rule_name@, u@, e@),
{
    let mut s = message3("Error on `", rule_name, "` for user `");
    push_str(&mut s, u);
    push_str(&mut s, "` (probably in Lua snippet): `");
    push_str(&mut s, e);
    push_str(&mut s, "`");
    s
}

fn post(channel: Channel, text: String) -> (r: Effect)
    ensures
        effect_view(r) == EffectView::Post(channel, text@),
{
    Effect::Post { channel, text }
}

fn push_effect(effects: &mut Vec<Effect>, e: Effect)
    ensures
        effect_views(final(effects)@) == effect_views(old(effects)@).push(effect_view(e)),
{
    effects.push(e);
    assert(effect_views(effects@) =~= effect_views(old(effects)@).push(effect_view(e)));
}

/// Notes `u` in the notification ring, newest first, keeping five.
fn note_notified(notified: &mut Vec<String>, u: &String)
    ensures
        views(final(notified)@) == ring_after(views(old(notified)@), u@),
{
    let ghost before = views(notified@);
    notified.insert(0, u.clone());
    assert(views(notified@) =~= seq![u@] + before);
    if notified.len() > NOTIFIED_LIMIT {
        notified.truncate(NOTIFIED_LIMIT);
        assert(views(notified@) =~= (seq![u@] + before).subrange(0, 5));
    }
}

fn push_action_effects(rule: &Rule, u: &String, delay: u64, notified: &mut Vec<String>, effects: &mut Vec<Effect>)
    requires
        delay < 100_000,
    ensures
        ({
            let (ae, n) = action_effects(rule.actions@, *rule, u@, delay, views(old(notified)@));
            &&& effect_views(final(effects)@) == effect_views(old(effects)@) + ae
            &&& views(final(notified)@) == n
        }),
{
    let ghost e0 = effect_views(effects@);
    let ghost n0 = views(notified@);
    let mut i: usize = 0;
    while i < rule.actions.len()
        invariant
            delay < 100_000,
            i <= rule.actions@.len(),
            ({
                let (ae, n) = action_effects(rule.actions@.subrange(0, i as int), *rule, u@, delay, n0);
                &&& effect_views(effects@) == e0 + ae
                &&& views(notified@) == n
            }),
        decreases rule.actions@.len() - i,
    {
        let a = rule.actions[i];
        proof {
            assert(rule.actions@.subrange(0, i + 1).drop_last() =~= rule.actions@.subrange(0, i as int));
        }
        let ghost prev = action_effects(rule.actions@.subrange(0, i as int), *rule, u@, delay, n0);
        match a.api_endpoint(&crate::event::Username(u.clone())) {
            Some(url) => {
                let d: u64 = if rule.no_delay {
                    0
                } else if a == Action::Close {
                    delay + 1500
                } else {
                    delay
                };
                push_effect(effects, Effect::ModRequest { path: url, delay_ms: d });
                assert(effect_views(effects@) =~= e0 + prev.0.push(EffectView::ModRequest(endpoint_of(a, u@)->0, action_delay(rule.no_delay, a, delay))));
            },
            None => {
                if !contains_ignoring_case(notified, u) {
                    let mut t = message3("Rule ", rule.name.as_str(), " match: https://lichess.org/@/");
                    push_str(&mut t, u.as_str());
                    push_effect(effects, post(Channel::Notify, t));
                    note_notified(notified, u);
                    assert(effect_views(effects@) =~= e0 + prev.0.push(EffectView::Post(Channel::Notify, notify_text(rule.name@, u@))));
                }
            },
        }
        i += 1;
    }
    assert(rule.actions@.subrange(0, i as int) =~= rule.actions@);
}

fn is_only_notify(actions: &Vec<Action>) -> (r: bool)
    ensures
        r == (actions@ == seq![Action::NotifyZulip]),
{
    let r = actions.len() == 1 && actions[0] == Action::NotifyZulip;
    proof {
        if r {
            assert(actions@ =~= seq![Action::NotifyZulip]);
        }
    }
    r
}

fn copy_verdict(r: &Result<bool, ScriptError>) -> (c: Result<bool, ScriptError>)
    ensures
        verdict_view(c) == verdict_view(*r),
{
    match r {
        Ok(b) => Ok(*b),
        Err(e) => Err(ScriptError { message: e.message.clone() }),
    }
}

fn script_for(scripts: &Vec<Result<bool, ScriptError>>, i: usize) -> (r: Result<bool, ScriptError>)
    ensures
        verdict_view(r) == script_at(scripts@, i as int),
{
    if i < scripts.len() {
        copy_verdict(&scripts[i])
    } else {
        Err(ScriptError { message: string_from("Script was not evaluated") })
    }
}

/// The effects of one rule on a signup; says whether it matched for real.
fn push_rule_effects(
    rule: &Rule,
    user: &User,
    hypothetical: bool,
    now: i64,
    delay: u64,
    script: Result<bool, ScriptError>,
    notified: &mut Vec<String>,
    effects: &mut Vec<Effect>,
) -> (matched: bool)
    requires
        delay < 100_000,
    ensures
        ({
            let (re, n, m) = rule_effects(
                *rule,
                user.username.0@,
                hypothetical,
                delay,
                rule_verdict(*rule, *user, now, verdict_view(script)),
                views(old(notified)@),
            );
            &&& effect_views(final(effects)@) == effect_views(old(effects)@) + re
            &&& views(final(notified)@) == n
            &&& matched == m
        }),
{
    let ghost e0 = effect_views(effects@);
    let verdict: Result<bool, ScriptError> = if !rule.enabled || rule.has_expired(now) {
        Ok(false)
    } else if rule.susp_ip && !user.susp_ip {
        Ok(false)
    } else {
        rule.criterion.take_action(user, &script)
    };
    let ghost v = verdict_view(verdict);
    assert(v == rule_verdict(*rule, *user, now, verdict_view(script)));
    let would = match &verdict {
        Ok(b) => *b,
        Err(_) => false,
    };
    if hypothetical && would {
        push_effect(effects, post(Channel::Main, would_take(rule)));
    }
    let ghost e1 = effect_views(effects@);
    match verdict {
        Ok(b) => {
            if b && !hypothetical {
                let u = &user.username.0;
                push_action_effects(rule, u, delay, notified, effects);
                if !is_only_notify(&rule.actions) {
                    push_effect(effects, post(Channel::Main, summary(rule, u.as_str())));
                }
                let ghost (ae, n) = action_effects(rule.actions@, *rule, u@, delay, views(old(notified)@));
                assert(effect_views(effects@) =~= e0 + (e1.subrange(e0.len() as int, e1.len() as int) + ae + if rule.actions@ == seq![Action::NotifyZulip] {
                    Seq::<EffectView>::empty()
                } else {
                    seq![EffectView::Post(Channel::Main, summary_text(*rule, u@))]
                }));
                true
            } else {
                assert(effect_views(effects@) =~= e0 + e1.subrange(e0.len() as int, e1.len() as int));
                false
            }
        },
        Err(e) => {
            let t = error_report(rule.name.as_str(), user.username.0.as_str(), e.message.as_str());
            push_effect(effects, post(Channel::Main, t));
            assert(effect_views(effects@) =~= e0 + e1.subrange(e0.len() as int, e1.len() as int).push(EffectView::Post(Channel::Main, error_text(rule.name@, user.username.0@, e.message@))));
            false
        },
    }
}

/// The script that rule `i` needs run on a user at `now`: its code, where the
/// rule is a script rule that would be evaluated.
pub open spec fn script_job(rule: Rule, user: User, now: i64) -> Option<Seq<char>> {
    if !rule.enabled || (rule.expiry matches Some(e) && now > e) || (rule.susp_ip && !user.susp_ip) {
        None
    } else {
        match rule.criterion {
            crate::signup::rules::Criterion::Lua(code) => Some(code@),
            _ => None,
        }
    }
}

/// The report of a status request.
pub open spec fn status_text(latest: i64) -> Seq<char> {
    "I am alive! Latest event: (UTC) "@ + match utc_dmy_of(latest as int) {
        Some(t) => t,
        None => dec_signed(latest as int),
    }
}

/// How a rule is shown in chat.
pub open spec fn show_text(rule: Rule) -> Seq<char> {
    "Criterion: "@ + friendly_text(rule.criterion) + ".\nActions: "@ + actions_text(rule.actions@)
        + (if rule.no_delay { ". No delay"@ } else { ""@ }) + match rule.expiry {
        Some(e) => ". Expires: "@ + match utc_text_of(e as int) {
            Some(t) => t,
            None => dec_signed(e as int),
        },
        None => ""@,
    }
}

/// The notice about a rule's expiry.
pub open spec fn expiry_notice_text(name: Seq<char>, expired: bool) -> Seq<char> {
    if expired {
        "Notice: rule `"@ + name + "` has expired"@
    } else {
        "Notice: rule `"@ + name + "` is expiring in less than a day"@
    }
}

/// The posts of expiry notices, in order.
pub open spec fn notice_posts(notices: Seq<(Seq<char>, bool)>) -> Seq<EffectView> {
    notices.map_values(|n: (Seq<char>, bool)| EffectView::Post(Channel::Notify, expiry_notice_text(n.0, n.1)))
}

/// The text for a user who was not seen.
pub open spec fn not_seen_text() -> Seq<char> {
    "No, that user has not been seen in the latest 10K sign-ins."@
}

fn time_text(ms: i64, dmy: bool) -> (r: String)
    ensures
        r@ == if dmy {
            match utc_dmy_of(ms as int) {
                Some(t) => t,
                None => dec_signed(ms as int),
            }
        } else {
            match utc_text_of(ms as int) {
                Some(t) => t,
                None => dec_signed(ms as int),
            }
        },
{
    let t = if dmy { utc_dmy(ms) } else { utc_text(ms) };
    match t {
        Some(t) => t,
        None => {
            let mut s = String::new();
            push_decimal_signed(&mut s, ms);
            s
        },
    }
}

fn show(rule: &Rule) -> (r: String)
    ensures
        r@ == show_text(*rule),
{
    let f = rule.criterion.friendly();
    let mut s = message3("Criterion: ", f.as_str(), ".\nActions: ");
    let a = describe_actions(&rule.actions);
    push_str(&mut s, a.as_str());
    if rule.no_delay {
        push_str(&mut s, ". No delay");
    }
    match rule.expiry {
        Some(e) => {
            push_str(&mut s, ". Expires: ");
            let t = time_text(e, false);
            push_str(&mut s, t.as_str());
        },
        None => {
            proof {
                assert(s@ =~= s@ + ""@) by { reveal_strlit(""); }
            }
        },
    }
    proof {
        if !rule.no_delay {
            reveal_strlit("");
        }
    }
    s
}

/// The framing of a positive answer to `seen`, around the snapshots already
/// written as JSON.
pub open spec fn seen_text(jsons: Seq<Seq<char>>) -> Seq<char> {
    "Yes, that user has been seen in the latest 10K sign-ins. Seen "@ + dec(jsons.len()) + " times:\n"@
        + join_seq(jsons.map_values(|j: Seq<char>| "`"@ + j + "`"@), "\n"@)
}

/// The positive answer to `seen`, around the snapshots written as JSON.
pub fn seen_message(jsons: &Vec<String>) -> (r: String)
    ensures
        r@ == seen_text(views(jsons@)),
{
    let mut quoted: Vec<String> = Vec::new();
    let mut i: usize = 0;
    while i < jsons.len()
        invariant
            i <= jsons@.len(),
            views(quoted@) == views(jsons@).subrange(0, i as int).map_values(|j: Seq<char>| "`"@ + j + "`"@),
        decreases jsons@.len() - i,
    {
        let ghost before = quoted@;
        quoted.push(message3("`", jsons[i].as_str(), "`"));
        assert(views(quoted@) =~= views(before).push("`"@ + jsons@[i as int]@ + "`"@));
        assert(views(jsons@).subrange(0, i + 1).map_values(|j: Seq<char>| "`"@ + j + "`"@) =~= views(jsons@).subrange(
            0,
            i as int,
        ).map_values(|j: Seq<char>| "`"@ + j + "`"@).push("`"@ + jsons@[i as int]@ + "`"@));
        i += 1;
    }
    assert(views(jsons@).subrange(0, i as int) =~= views(jsons@));
    let mut s = string_from("Yes, that user has been seen in the latest 10K sign-ins. Seen ");
    push_decimal(&mut s, jsons.len() as u64);
    push_str(&mut s, " times:\n");
    let body = join(&quoted, "\n");
    push_str(&mut s, body.as_str());
    s
}

impl Dispatcher {
    /// The state stays within its limits.
    pub open spec fn wf(&self) -> bool {
        &&& self.rule_manager.wf()
        &&& self.recently_checked.wf()
        &&& self.recently_notified@.len() <= NOTIFIED_LIMIT
    }

    /// A dispatcher over a catalogue, that has seen nothing yet; `now` stands
    /// for the latest upstream event.
    pub fn new(rule_manager: SignupRulesManager, now: i64) -> (r: Dispatcher)
        requires
            rule_manager.wf(),
        ensures
            r.wf(),
            r.rule_manager == rule_manager,
            r.latest_event == now,
            r.recently_notified@.len() == 0,
            r.recently_checked.view_entries().len() == 0,
    {
        Dispatcher {
            rule_manager,
            latest_event: now,
            recently_notified: Vec::new(),
            recently_checked: RecencyBuffer::new(),
        }
    }

    /// For each rule, the script to run on `user` before a signup is handed
    /// in at `now`.
    pub fn script_jobs(&self, user: &User, now: i64) -> (r: Vec<Option<String>>)
        ensures
            r@.len() == self.rule_manager.rules_view().len(),
            forall|i: int|
                0 <= i < r@.len() ==> opt_view(#[trigger] r@[i]) == script_job(
                    self.rule_manager.rules_view()[i],
                    *user,
                    now,
                ),
    {
        let rules = self.rule_manager.rules();
        let mut out: Vec<Option<String>> = Vec::new();
        let mut i: usize = 0;
        while i < rules.len()
            invariant
                rules@ == self.rule_manager.rules_view(),
                i <= rules@.len(),
                out@.len() == i,
                forall|k: int| 0 <= k < i ==> opt_view(#[trigger] out@[k]) == script_job(rules@[k], *user, now),
            decreases rules@.len() - i,
        {
            let rule = &rules[i];
            let job = if !rule.enabled || rule.has_expired(now) || (rule.susp_ip && !user.susp_ip) {
                None
            } else {
                match &rule.criterion {
                    crate::signup::rules::Criterion::Lua(code) => Some(code.clone()),
                    _ => None,
                }
            };
            out.push(job);
            i += 1;
        }
        out
    }

    fn handle_signup(
        &mut self,
        user: User,
        hypothetical: bool,
        now: i64,
        delay: u64,
        scripts: &Vec<Result<bool, ScriptError>>,
    ) -> (effects: Vec<Effect>)
        requires
            old(self).wf(),
            delay < 100_000,
        ensures
            final(self).wf(),
            final(self).latest_event == old(self).latest_event,
            final(self).rule_manager.path_view() == old(self).rule_manager.path_view(),
            ({
                let before = old(self).rule_manager.rules_view();
                let u = user.username.0@;
                let (e, n, m) = signup_pass(before, user, hypothetical, now, delay, scripts@, views(old(self).recently_notified@));
                let changed = exists|i: int| 0 <= i < before.len() && takes_note(before, m, i, u);
                &&& views(final(self).recently_notified@) == n
                &&& final(self).recently_checked.view_entries() == if old(self).recently_checked.view_entries().len() >= crate::recency::RECENCY_LIMIT {
                    old(self).recently_checked.view_entries().push((lower_of(u), user)).drop_first()
                } else {
                    old(self).recently_checked.view_entries().push((lower_of(u), user))
                }
                &&& hypothetical ==> final(self).rule_manager.rules_view() == before
                &&& hypothetical ==> effect_views(effects@) == e
                &&& !hypothetical ==> noted(before, final(self).rule_manager.rules_view(), m, u, now)
                &&& !hypothetical ==> effect_views(effects@) == if changed {
                    e.push(EffectView::Persist)
                } else {
                    e
                }
            }),
    {
        let ghost before = self.rule_manager.rules_view();
        let ghost n0 = views(self.recently_notified@);
        let mut effects: Vec<Effect> = Vec::new();
        let mut matched: Vec<bool> = Vec::new();
        let count = self.rule_manager.rules().len();
        let mut i: usize = 0;
        while i < count
            invariant
                self.wf(),
                delay < 100_000,
                count == before.len(),
                self.rule_manager.rules_view() == before,
                self.rule_manager.path_view() == old(self).rule_manager.path_view(),
                self.latest_event == old(self).latest_event,
                self.recently_checked == old(self).recently_checked,
                i <= count,
                ({
                    let (e, n, m) = signup_pass(before.subrange(0, i as int), user, hypothetical, now, delay, scripts@, n0);
                    &&& effect_views(effects@) == e
                    &&& views(self.recently_notified@) == n
                    &&& matched@ == m
                }),
            decreases count - i,
        {
            proof {
                assert(before.subrange(0, i + 1).drop_last() =~= before.subrange(0, i as int));
            }
            let script = script_for(scripts, i);
            let rules = self.rule_manager.rules();
            let ghost n_before = views(self.recently_notified@);
            let ghost sv = verdict_view(script);
            let m = push_rule_effects(&rules[i], &user, hypothetical, now, delay, script, &mut self.recently_notified, &mut effects);
            proof {
                lemma_rule_effects_ring(before[i as int], user.username.0@, hypothetical, delay, rule_verdict(before[i as int], user, now, sv), n_before);
            }
            matched.push(m);
            i += 1;
        }
        assert(before.subrange(0, i as int) =~= before);
        let ghost m_all = matched@;
        proof {
            lemma_pass_len(before, user, hypothetical, now, delay, scripts@, n0);
        }
        let mut changed = false;
        if !hypothetical {
            let mut j: usize = 0;
            while j < count
                invariant
                    self.rule_manager.wf(),
                    self.rule_manager.path_view() == old(self).rule_manager.path_view(),
                    self.recently_checked == old(self).recently_checked,
                    self.recently_notified@.len() <= NOTIFIED_LIMIT,
                    self.latest_event == old(self).latest_event,
                    views(self.recently_notified@) == signup_pass(before, user, hypothetical, now, delay, scripts@, n0).1,
                    count == before.len(),
                    matched@ == m_all,
                    m_all.len() == count,
                    j <= count,
                    self.rule_manager.rules_view().len() == count,
                    forall|k: int| j <= k < count ==> self.rule_manager.rules_view()[k] == before[k],
                    forall|k: int|
                        0 <= k < j ==> if takes_note(before, m_all, k, user.username.0@) {
                            caught_update(before[k], #[trigger] self.rule_manager.rules_view()[k], user.username.0@, now)
                        } else {
                            self.rule_manager.rules_view()[k] == before[k]
                        },
                    changed == exists|k: int| 0 <= k < j && takes_note(before, m_all, k, user.username.0@),
                decreases count - j,
            {
                if matched[j] {
                    let name = self.rule_manager.rules()[j].name.clone();
                    let ghost mid = self.rule_manager.rules_view();
                    let r = self.rule_manager.caught(name, &user.username, now);
                    proof {
                        assert(mid[j as int].name@ == name@);
                        assert(has_name(mid, name@));
                        let w = choose|w: int| 0 <= w < mid.len() && mid[w].name@ == name@ && ({
                            let b = mid[w];
                            if seen_among(views(b.most_recent_caught@), user.username.0@) {
                                r == Ok::<bool, RuleStoreError>(false) && self.rule_manager.rules_view() == mid
                            } else {
                                &&& r == Ok::<bool, RuleStoreError>(true)
                                &&& self.rule_manager.rules_view().len() == mid.len()
                                &&& forall|k: int| 0 <= k < mid.len() && k != w ==> self.rule_manager.rules_view()[k] == mid[k]
                                &&& caught_update(b, self.rule_manager.rules_view()[w], user.username.0@, now)
                            }
                        });
                        assert(w == j);
                    }
                    match r {
                        Ok(true) => { changed = true; },
                        _ => {},
                    }
                }
                proof {
                    if takes_note(before, m_all, j as int, user.username.0@) {
                        assert(changed);
                    } else if changed {
                        let k = choose|k: int| 0 <= k < j + 1 && takes_note(before, m_all, k, user.username.0@);
                        assert(k < j);
                    }
                }
                j += 1;
            }
            if changed {
                push_effect(&mut effects, Effect::Persist);
            }
        }
        let key = to_lower(user.username.0.as_str());
        self.recently_checked.push(key, user);
        effects
    }

    fn handle_seen(&self, name: String) -> (effects: Vec<Effect>)
        ensures
            ({
                let entries = self.recently_checked.view_entries();
                let key = lower_of(name@);
                &&& holds_key(entries, key) ==> effect_views(effects@) == seq![EffectView::ReportSeen(snapshots_of(entries, key).len())]
                &&& holds_key(entries, key) ==> reports_seen(effects@, snapshots_of(entries, key))
                &&& !holds_key(entries, key) ==> effect_views(effects@) == seq![EffectView::Post(Channel::Main, not_seen_text())]
            }),
    {
        let mut effects: Vec<Effect> = Vec::new();
        let key = to_lower(name.as_str());
        if self.recently_checked.contains(&key) {
            let snapshots = self.recently_checked.snapshots(&key);
            let ghost n = snapshots@.len();
            effects.push(Effect::ReportSeen { snapshots });
            assert(effect_views(effects@) =~= seq![EffectView::ReportSeen(n)]);
        } else {
            push_effect(&mut effects, post(Channel::Main, string_from("No, that user has not been seen in the latest 10K sign-ins.")));
        }
        effects
    }

    /// Handles one event at `now`. `delay` is the random delay drawn for the
    /// moderation actions of a signup; `scripts` holds, for each rule in
    /// order, what running its script on the signup's user gave (see
    /// `script_jobs`).
    #[verifier::rlimit(60)]
    pub fn handle_event(
        &mut self,
        event: Event,
        now: i64,
        delay: u64,
        scripts: &Vec<Result<bool, ScriptError>>,
    ) -> (effects: Vec<Effect>)
        requires
            old(self).wf(),
            crate::clock::MIN_ACTION_DELAY_MS <= delay < crate::clock::MAX_ACTION_DELAY_MS,
        ensures
            final(self).wf(),
            final(self).rule_manager.path_view() == old(self).rule_manager.path_view(),
            ({
                let before = old(self).rule_manager.rules_view();
                let after = final(self).rule_manager.rules_view();
                let effs = effect_views(effects@);
                let main = |t: Seq<char>| EffectView::Post(Channel::Main, t);
                match event {
                    Event::Signup(user) => {
                        let u = user.username.0@;
                        let (e, n, m) = signup_pass(before, user, false, now, delay, scripts@, views(old(self).recently_notified@));
                        let changed = exists|i: int| 0 <= i < before.len() && takes_note(before, m, i, u);
                        &&& noted(before, after, m, u, now)
                        &&& effs == if changed { e.push(EffectView::Persist) } else { e }
                        &&& views(final(self).recently_notified@) == n
                        &&& final(self).recently_checked.view_entries() == if old(self).recently_checked.view_entries().len() >= crate::recency::RECENCY_LIMIT {
                            old(self).recently_checked.view_entries().push((lower_of(u), user)).drop_first()
                        } else {
                            old(self).recently_checked.view_entries().push((lower_of(u), user))
                        }
                        &&& final(self).latest_event == old(self).latest_event
                    },
                    Event::InternalHypotheticalSignup(user) => {
                        let u = user.username.0@;
                        let (e, n, m) = signup_pass(before, user, true, now, delay, scripts@, views(old(self).recently_notified@));
                        &&& after == before
                        &&& effs == e
                        &&& views(final(self).recently_notified@) == n
                        &&& final(self).recently_checked.view_entries() == if old(self).recently_checked.view_entries().len() >= crate::recency::RECENCY_LIMIT {
                            old(self).recently_checked.view_entries().push((lower_of(u), user)).drop_first()
                        } else {
                            old(self).recently_checked.view_entries().push((lower_of(u), user))
                        }
                        &&& final(self).latest_event == old(self).latest_event
                    },
                    _ => {
                        &&& final(self).recently_notified == old(self).recently_notified
                        &&& final(self).recently_checked == old(self).recently_checked
                        &&& match event {
                            Event::InternalStreamEventReceived => final(self).latest_event == now,
                            _ => final(self).latest_event == old(self).latest_event,
                        }
                        &&& match event {
                            Event::InternalAddRule { rule } => if !has_name(before, rule.name@) && rule.wf() {
                                after == before.push(rule) && effs == seq![EffectView::Persist, main("Rule added!"@)]
                            } else {
                                after == before && effs == seq![main("Error on adding rule: "@ + store_error_text(
                                    if has_name(before, rule.name@) { RuleStoreError::DuplicateName } else { RuleStoreError::MalformedRule },
                                ))]
                            },
                            Event::InternalShowRule(name) => after == before && if has_name(before, name@) {
                                exists|i: int| 0 <= i < before.len() && before[i].name@ == name@ && effs == seq![main(show_text(before[i]))]
                            } else {
                                effs == seq![main("No such rule found."@)]
                            },
                            Event::InternalRemoveRule(name) => if has_name(before, name@) {
                                &&& effs == seq![EffectView::Persist, main("Rule removed!"@)]
                                &&& exists|i: int| 0 <= i < before.len() && before[i].name@ == name@ && after == before.remove(i)
                            } else {
                                after == before && effs == seq![main("No such rule found."@)]
                            },
                            Event::InternalDisableRules(p) => if regex_compiles(p@) {
                                &&& effs == seq![EffectView::Persist, main(dec(count_matching(before, p@)) + " rules disabled."@)]
                                &&& after.len() == before.len()
                                &&& forall|i: int| 0 <= i < before.len() ==> #[trigger] after[i] == if regex_matches(p@, before[i].name@) {
                                    with_enabled(before[i], false)
                                } else {
                                    before[i]
                                }
                            } else {
                                after == before && effs == seq![main("Error on disabling rules: Invalid regex."@)]
                            },
                            Event::InternalEnableRules(p) => if regex_compiles(p@) {
                                &&& effs == seq![EffectView::Persist, main(dec(count_matching(before, p@)) + " rules enabled."@)]
                                &&& after.len() == before.len()
                                &&& forall|i: int| 0 <= i < before.len() ==> #[trigger] after[i] == if regex_matches(p@, before[i].name@) {
                                    with_enabled(before[i], true)
                                } else {
                                    before[i]
                                }
                            } else {
                                after == before && effs == seq![main("Error on enabling rules: Invalid regex."@)]
                            },
                            Event::InternalListRules => after == before && effs == seq![main("Current rules: "@ + join_seq(
                                before.map_values(|x: Rule| listed_name(x)),
                                ", "@,
                            ))],
                            Event::InternalStreamEventReceived => after == before && effs.len() == 0,
                            Event::InternalZulipStatusCommand => after == before && effs == seq![main(status_text(old(self).latest_event))],
                            Event::InternalIsRecentlyChecked(name) => {
                                let entries = old(self).recently_checked.view_entries();
                                let key = lower_of(name@);
                                &&& after == before
                                &&& holds_key(entries, key) ==> effs == seq![EffectView::ReportSeen(snapshots_of(entries, key).len())]
                                &&& holds_key(entries, key) ==> reports_seen(effects@, snapshots_of(entries, key))
                                &&& !holds_key(entries, key) ==> effs == seq![main(not_seen_text())]
                            },
                            Event::InternalCheckRulesExpiry => {
                                &&& after == swept(before, now)
                                &&& effs == notice_posts(notices_of(before, now)).push(EffectView::Persist)
                            },
                            Event::InternalRenewRule { rule, new_expiry } => if has_name(before, rule@) {
                                &&& effs == seq![EffectView::Persist, main("Rule renewed!"@)]
                                &&& exists|i: int| 0 <= i < before.len() && before[i].name@ == rule@ && after == before.update(i, renewed(before[i], new_expiry))
                            } else {
                                after == before && effs == seq![main("No such rule found."@)]
                            },
                            _ => true,
                        }
                    },
                }
            }),
    {
        let mut effects: Vec<Effect> = Vec::new();
        match event {
            Event::Signup(user) => {
                return self.handle_signup(user, false, now, delay, scripts);
            },
            Event::InternalHypotheticalSignup(user) => {
                return self.handle_signup(user, true, now, delay, scripts);
            },
            Event::InternalAddRule { rule } => {
                match self.rule_manager.add_rule(rule) {
                    Ok(()) => {
                        push_effect(&mut effects, Effect::Persist);
                        push_effect(&mut effects, post(Channel::Main, string_from("Rule added!")));
                    },
                    Err(e) => {
                        let m = e.message();
                        push_effect(&mut effects, post(Channel::Main, message3("Error on adding rule: ", m.as_str(), "")));
                        proof { reveal_strlit(""); }
                    },
                }
            },
            Event::InternalShowRule(name) => {
                let text = match self.rule_manager.find_rule(name) {
                    None => string_from("No such rule found."),
                    Some(rule) => show(rule),
                };
                push_effect(&mut effects, post(Channel::Main, text));
            },
            Event::InternalRemoveRule(name) => {
                if self.rule_manager.remove_rule(name) {
                    push_effect(&mut effects, Effect::Persist);
                    push_effect(&mut effects, post(Channel::Main, string_from("Rule removed!")));
                } else {
                    push_effect(&mut effects, post(Channel::Main, string_from("No such rule found.")));
                }
            },
            Event::InternalDisableRules(pattern) => {
                let ghost rs = self.rule_manager.rules_view();
                let ghost pv = pattern@;
                proof {
                    crate::signup::rules::lemma_count_matching_le(rs, pv);
                }
                match self.rule_manager.disable_rules(pattern) {
                    Ok(count) => {
                        assert(count as nat == count_matching(rs, pv));
                        let mut t = String::new();
                        push_decimal(&mut t, count as u64);
                        push_str(&mut t, " rules disabled.");
                        assert(t@ =~= dec(count_matching(rs, pv)) + " rules disabled."@);
                        push_effect(&mut effects, Effect::Persist);
                        push_effect(&mut effects, post(Channel::Main, t));
                    },
                    Err(_) => {
                        push_effect(&mut effects, post(Channel::Main, string_from("Error on disabling rules: Invalid regex.")));
                    },
                }
            },
            Event::InternalEnableRules(pattern) => {
                let ghost rs = self.rule_manager.rules_view();
                let ghost pv = pattern@;
                proof {
                    crate::signup::rules::lemma_count_matching_le(rs, pv);
                }
                match self.rule_manager.enable_rules(pattern) {
                    Ok(count) => {
                        assert(count as nat == count_matching(rs, pv));
                        let mut t = String::new();
                        push_decimal(&mut t, count as u64);
                        push_str(&mut t, " rules enabled.");
                        assert(t@ =~= dec(count_matching(rs, pv)) + " rules enabled."@);
                        push_effect(&mut effects, Effect::Persist);
                        push_effect(&mut effects, post(Channel::Main, t));
                    },
                    Err(_) => {
                        push_effect(&mut effects, post(Channel::Main, string_from("Error on enabling rules: Invalid regex.")));
                    },
                }
            },
            Event::InternalListRules => {
                let names = self.rule_manager.list_names();
                let joined = join(&names, ", ");
                push_effect(&mut effects, post(Channel::Main, message3("Current rules: ", joined.as_str(), "")));
                proof { reveal_strlit(""); }
            },
            Event::InternalStreamEventReceived => {
                self.latest_event = now;
            },
            Event::InternalZulipStatusCommand => {
                let t = time_text(self.latest_event, true);
                push_effect(&mut effects, post(Channel::Main, message3("I am alive! Latest event: (UTC) ", t.as_str(), "")));
                proof { reveal_strlit(""); }
            },
            Event::InternalIsRecentlyChecked(name) => {
                return self.handle_seen(name);
            },
            Event::InternalCheckRulesExpiry => {
                let sweep = self.rule_manager.sweep_expiry(now);
                let mut i: usize = 0;
                while i < sweep.notices.len()
                    invariant
                        i <= sweep.notices@.len(),
                        effect_views(effects@) == notice_posts(notice_views(sweep.notices@.subrange(0, i as int))),
                    decreases sweep.notices@.len() - i,
                {
                    let n = &sweep.notices[i];
                    let t = if n.expired {
                        message3("Notice: rule `", n.rule.as_str(), "` has expired")
                    } else {
                        message3("Notice: rule `", n.rule.as_str(), "` is expiring in less than a day")
                    };
                    push_effect(&mut effects, post(Channel::Notify, t));
                    assert(notice_views(sweep.notices@.subrange(0, i + 1)) =~= notice_views(sweep.notices@.subrange(0, i as int)).push((n.rule@, n.expired)));
                    assert(effect_views(effects@) =~= notice_posts(notice_views(sweep.notices@.subrange(0, i + 1))));
                    i += 1;
                }
                assert(sweep.notices@.subrange(0, i as int) =~= sweep.notices@);
                push_effect(&mut effects, Effect::Persist);
            },
            Event::InternalRenewRule { rule, new_expiry } => {
                if self.rule_manager.renew(rule, new_expiry) {
                    push_effect(&mut effects, Effect::Persist);
                    push_effect(&mut effects, post(Channel::Main, string_from("Rule renewed!")));
                } else {
                    push_effect(&mut effects, post(Channel::Main, string_from("No such rule found.")));
                }
            },
        }
        effects
    }
}

/// A closing action of a rule without `no_delay` waits the signup's delay and
/// a second and a half more: between 31.5 and 101.5 seconds.
pub proof fn lemma_close_delay_bounds(delay: u64)
    requires
        crate::clock::MIN_ACTION_DELAY_MS <= delay < crate::clock::MAX_ACTION_DELAY_MS,
    ensures
        31_500 <= action_delay(false, Action::Close, delay) <= 101_500,
        forall|a: Action| a != Action::Close ==> 30_000 <= #[trigger] action_delay(false, a, delay) < 100_000,
        forall|a: Action| #[trigger] action_delay(true, a, delay) == 0,
{
}

/// A dry run leaves the catalogue as it was and sends no moderation request,
/// whatever the rules, the user and the script verdicts.
pub proof fn lemma_dry_run_sends_nothing(
    rules: Seq<Rule>,
    user: User,
    now: i64,
    delay: u64,
    scripts: Seq<Result<bool, ScriptError>>,
    notified: Seq<Seq<char>>,
)
    ensures
        ({
            let (e, n, m) = signup_pass(rules, user, true, now, delay, scripts, notified);
            &&& n == notified
            &&& forall|i: int| 0 <= i < m.len() ==> !#[trigger] m[i]
            &&& forall|i: int| 0 <= i < e.len() ==> (#[trigger] e[i]) is Post && e[i]->Post_0 == Channel::Main
        }),
    decreases rules.len(),
{
    if rules.len() > 0 {
        lemma_dry_run_sends_nothing(rules.drop_last(), user, now, delay, scripts, notified);
        let (e0, n0, m0) = signup_pass(rules.drop_last(), user, true, now, delay, scripts, notified);
        let (e, n, m) = signup_pass(rules, user, true, now, delay, scripts, notified);
        assert forall|i: int| 0 <= i < m.len() implies !#[trigger] m[i] by {
            if i < m0.len() {
                assert(m[i] == m0[i]);
            }
        }
        assert forall|i: int| 0 <= i < e.len() implies (#[trigger] e[i]) is Post && e[i]->Post_0 == Channel::Main by {
            if i < e0.len() {
                assert(e[i] == e0[i]);
            }
        }
    }
}

/// Once a rule was added, showing it by name gives a text that holds its
/// criterion and its actions in friendly form.
pub proof fn lemma_show_after_add(before: Seq<Rule>, rule: Rule)
    requires
        crate::signup::rules::names_unique(before),
        !has_name(before, rule.name@),
    ensures
        has_name(before.push(rule), rule.name@),
        forall|i: int|
            0 <= i < before.len() + 1 && (#[trigger] before.push(rule)[i]).name@ == rule.name@
                ==> show_text(before.push(rule)[i]) == show_text(rule),
        crate::text::contains_seq(show_text(rule), friendly_text(rule.criterion)),
        crate::text::contains_seq(show_text(rule), actions_text(rule.actions@)),
{
    crate::signup::rules::lemma_added_rule_is_found(before, rule);
    let t = show_text(rule);
    let f = friendly_text(rule.criterion);
    let a = actions_text(rule.actions@);
    let head: Seq<char> = "Criterion: "@;
    let mid: Seq<char> = ".\nActions: "@;
    let rest = t.subrange((head.len() + f.len() + mid.len() + a.len()) as int, t.len() as int);
    assert(t =~= head + f + mid + a + rest);
    assert(t.subrange(head.len() as int, (head.len() + f.len()) as int) =~= f);
    assert(crate::text::occurs_at(t, f, head.len() as int));
    let at = head.len() + f.len() + mid.len();
    assert(t.subrange(at as int, (at + a.len()) as int) =~= a);
    assert(crate::text::occurs_at(t, a, at as int));
}

/// The moderation requests among some effects, in order.
pub open spec fn mod_requests(effs: Seq<EffectView>) -> Seq<EffectView>
    decreases effs.len(),
{
    if effs.len() == 0 {
        Seq::empty()
    } else {
        let rest = mod_requests(effs.drop_last());
        if effs.last() is ModRequest {
            rest.push(effs.last())
        } else {
            rest
        }
    }
}

proof fn lemma_mod_requests_concat(a: Seq<EffectView>, b: Seq<EffectView>)
    ensures
        mod_requests(a + b) == mod_requests(a) + mod_requests(b),
    decreases b.len(),
{
    if b.len() == 0 {
        assert(a + b =~= a);
        assert(mod_requests(a) + mod_requests(b) =~= mod_requests(a));
    } else {
        lemma_mod_requests_concat(a, b.drop_last());
        assert((a + b).drop_last() =~= a + b.drop_last());
        assert((a + b).last() == b.last());
        assert(mod_requests(a) + mod_requests(b.drop_last()).push(b.last()) =~= (mod_requests(a)
            + mod_requests(b.drop_last())).push(b.last()));
    }
}

proof fn lemma_no_requests_when_unmatched(
    rule: Rule,
    u: Seq<char>,
    hypothetical: bool,
    delay: u64,
    verdict: Result<bool, Seq<char>>,
    notified: Seq<Seq<char>>,
)
    requires
        hypothetical || verdict != Ok::<bool, Seq<char>>(true),
    ensures
        mod_requests(rule_effects(rule, u, hypothetical, delay, verdict, notified).0).len() == 0,
{
    let e = rule_effects(rule, u, hypothetical, delay, verdict, notified).0;
    if e.len() > 0 {
        assert(mod_requests(e.drop_last()).len() == 0) by {
            if e.len() == 2 {
                assert(mod_requests(e.drop_last().drop_last()).len() == 0);
            }
        }
    }
}

proof fn lemma_single_close_prefix(
    rules: Seq<Rule>,
    user: User,
    now: i64,
    delay: u64,
    scripts: Seq<Result<bool, ScriptError>>,
    notified: Seq<Seq<char>>,
    k: int,
    n: int,
)
    requires
        0 <= k < rules.len(),
        0 <= n <= rules.len(),
        delay < 100_000,
        rule_verdict(rules[k], user, now, script_at(scripts, k)) == Ok::<bool, Seq<char>>(true),
        rules[k].actions@ == seq![Action::Close],
        !rules[k].no_delay,
        forall|i: int|
            0 <= i < rules.len() && i != k ==> rule_verdict(rules[i], user, now, script_at(scripts, i))
                != Ok::<bool, Seq<char>>(true),
    ensures
        mod_requests(signup_pass(rules.subrange(0, n), user, false, now, delay, scripts, notified).0)
            == if n > k {
            seq![EffectView::ModRequest(endpoint_of(Action::Close, user.username.0@)->0, (delay + 1500) as u64)]
        } else {
            Seq::<EffectView>::empty()
        },
    decreases n,
{
    let u = user.username.0@;
    if n > 0 {
        let pre = rules.subrange(0, n - 1);
        let cur = rules.subrange(0, n);
        assert(cur.drop_last() =~= pre);
        assert(cur.last() == rules[n - 1]);
        lemma_single_close_prefix(rules, user, now, delay, scripts, notified, k, n - 1);
        let (e0, n0, m0) = signup_pass(pre, user, false, now, delay, scripts, notified);
        let v = rule_verdict(rules[n - 1], user, now, script_at(scripts, n - 1));
        let re = rule_effects(rules[n - 1], u, false, delay, v, n0).0;
        lemma_mod_requests_concat(e0, re);
        if n - 1 == k {
            let ae = action_effects(rules[k].actions@, rules[k], u, delay, n0);
            let acts = rules[k].actions@;
            assert(acts.drop_last() =~= Seq::<Action>::empty());
            assert(acts.last() == Action::Close);
            let req = EffectView::ModRequest(endpoint_of(Action::Close, u)->0, (delay + 1500) as u64);
            assert(action_effects(acts.drop_last(), rules[k], u, delay, n0) == (Seq::<EffectView>::empty(), n0));
            assert(endpoint_of(Action::Close, u) is Some);
            assert(ae.0 =~= Seq::<EffectView>::empty().push(req));
            assert(ae.0 =~= seq![req]);
            let tail = seq![EffectView::Post(Channel::Main, summary_text(rules[k], u))];
            assert(acts != seq![Action::NotifyZulip]) by {
                assert(acts[0] != seq![Action::NotifyZulip][0]);
            }
            assert(re =~= Seq::<EffectView>::empty() + ae.0 + tail);
            assert(mod_requests(seq![req]) =~= seq![req]) by {
                assert(seq![req].drop_last() =~= Seq::<EffectView>::empty());
                assert(mod_requests(Seq::<EffectView>::empty()) == Seq::<EffectView>::empty());
            }
            lemma_mod_requests_concat(Seq::<EffectView>::empty() + ae.0, tail);
            assert(mod_requests(tail) =~= Seq::<EffectView>::empty()) by {
                assert(tail.drop_last() =~= Seq::<EffectView>::empty());
                assert(mod_requests(Seq::<EffectView>::empty()) == Seq::<EffectView>::empty());
            }
            assert(Seq::<EffectView>::empty() + ae.0 =~= seq![req]);
            assert(mod_requests(re) =~= seq![req]);
        } else {
            lemma_no_requests_when_unmatched(rules[n - 1], u, false, delay, v, n0);
        }
        assert(mod_requests(e0) + mod_requests(re) =~= mod_requests(e0 + re));
    } else {
        assert(rules.subrange(0, 0) =~= Seq::<Rule>::empty());
    }
}

/// A signup that exactly one rule matches, a rule that closes the account
/// without `no_delay`, yields exactly one moderation request: the closing of
/// that user, delayed by the signup's delay and a second and a half more,
/// between 31.5 and 101.5 seconds; whatever other rules the catalogue holds.
pub proof fn lemma_single_close_match(
    rules: Seq<Rule>,
    user: User,
    now: i64,
    delay: u64,
    scripts: Seq<Result<bool, ScriptError>>,
    notified: Seq<Seq<char>>,
    k: int,
)
    requires
        0 <= k < rules.len(),
        crate::clock::MIN_ACTION_DELAY_MS <= delay < crate::clock::MAX_ACTION_DELAY_MS,
        rule_verdict(rules[k], user, now, script_at(scripts, k)) == Ok::<bool, Seq<char>>(true),
        rules[k].actions@ == seq![Action::Close],
        !rules[k].no_delay,
        forall|i: int|
            0 <= i < rules.len() && i != k ==> rule_verdict(rules[i], user, now, script_at(scripts, i))
                != Ok::<bool, Seq<char>>(true),
    ensures
        mod_requests(signup_pass(rules, user, false, now, delay, scripts, notified).0) == seq![
            EffectView::ModRequest(
                "/mod/"@ + user.username.0@ + "/close"@,
                (delay + 1500) as u64,
            ),
        ],
        31_500 <= delay + 1500 <= 101_500,
{
    lemma_single_close_prefix(rules, user, now, delay, scripts, notified, k, rules.len() as int);
    assert(rules.subrange(0, rules.len() as int) =~= rules);
}

proof fn lemma_would_take_prefix(
    rules: Seq<Rule>,
    user: User,
    now: i64,
    delay: u64,
    scripts: Seq<Result<bool, ScriptError>>,
    notified: Seq<Seq<char>>,
    k: int,
    n: int,
)
    requires
        0 <= k < n <= rules.len(),
        rule_verdict(rules[k], user, now, script_at(scripts, k)) == Ok::<bool, Seq<char>>(true),
    ensures
        signup_pass(rules.subrange(0, n), user, true, now, delay, scripts, notified).0.contains(
            EffectView::Post(Channel::Main, would_take_text(rules[k])),
        ),
    decreases n,
{
    let u = user.username.0@;
    let x = EffectView::Post(Channel::Main, would_take_text(rules[k]));
    let pre = rules.subrange(0, n - 1);
    let cur = rules.subrange(0, n);
    assert(cur.drop_last() =~= pre);
    assert(cur.last() == rules[n - 1]);
    let (e0, n0, m0) = signup_pass(pre, user, true, now, delay, scripts, notified);
    let v = rule_verdict(rules[n - 1], user, now, script_at(scripts, n - 1));
    let re = rule_effects(rules[n - 1], u, true, delay, v, n0).0;
    let all = e0 + re;
    if n - 1 == k {
        assert(re[0] == x);
        assert(all[e0.len() as int] == x);
    } else {
        lemma_would_take_prefix(rules, user, now, delay, scripts, notified, k, n - 1);
        let j = choose|j: int| 0 <= j < e0.len() && e0[j] == x;
        assert(all[j] == x);
    }
}

/// A dry run posts, for every rule that would match, which actions it would
/// take, and sends no request and no notification (see
/// `lemma_dry_run_sends_nothing`); whatever other rules the catalogue holds.
pub proof fn lemma_dry_run_reports_matches(
    rules: Seq<Rule>,
    user: User,
    now: i64,
    delay: u64,
    scripts: Seq<Result<bool, ScriptError>>,
    notified: Seq<Seq<char>>,
    k: int,
)
    requires
        0 <= k < rules.len(),
        rule_verdict(rules[k], user, now, script_at(scripts, k)) == Ok::<bool, Seq<char>>(true),
    ensures
        signup_pass(rules, user, true, now, delay, scripts, notified).0.contains(
            EffectView::Post(Channel::Main, would_take_text(rules[k])),
        ),
{
    lemma_would_take_prefix(rules, user, now, delay, scripts, notified, k, rules.len() as int);
    assert(rules.subrange(0, rules.len() as int) =~= rules);
}

} // verus!
