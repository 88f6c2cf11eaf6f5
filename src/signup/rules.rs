//! Rules over new accounts and the catalogue that holds them.
use vstd::prelude::*;
use crate::event::{FingerPrint, Ip, User, Username};
use crate::folding::{lower_of, to_lower, to_upper, upper_of};
use crate::pattern::{compiles, is_match, regex_compiles, regex_matches};
use crate::text::{
    chars_of, contains_chars, contains_seq, dec, join, join_seq, push_decimal,
    push_str, string_from, views,
};

verus! {

/// One day, in milliseconds.
pub const DAY_MS: i64 = 86_400_000;

/// Why the catalogue refused a change.
#[derive(PartialEq, Eq, Structural, Clone, Copy, Debug)]
pub enum RuleStoreError {
    /// A rule with that name is already in the catalogue.
    DuplicateName,
    /// The pattern is not a valid regular expression.
    InvalidPattern,
    /// No rule has that name.
    NotFound,
    /// The rule breaks a limit of its fields (more than three recent
    /// matches, a repeated one, or an unknown notification state).
    MalformedRule,
}

/// How a catalogue error reads in chat.
pub open spec fn store_error_text(e: RuleStoreError) -> Seq<char> {
    match e {
        RuleStoreError::DuplicateName => "Already a rule found with that name."@,
        RuleStoreError::InvalidPattern => "Invalid regex."@,
        RuleStoreError::NotFound => "No such rule found."@,
        RuleStoreError::MalformedRule => "Malformed rule."@,
    }
}

impl RuleStoreError {
    /// How the error reads in chat.
    pub fn message(&self) -> (r: String)
        ensures
            r@ == store_error_text(*self),
    {
        match self {
            RuleStoreError::DuplicateName => string_from("Already a rule found with that name."),
            RuleStoreError::InvalidPattern => string_from("Invalid regex."),
            RuleStoreError::NotFound => string_from("No such rule found."),
            RuleStoreError::MalformedRule => string_from("Malformed rule."),
        }
    }
}

/// Why a criterion could not be decided.
pub struct ScriptError {
    pub message: String,
}

/// The condition of a rule on a new account.
pub enum Criterion {
    IpMatch(Ip),
    PrintMatch(FingerPrint),
    EmailContains(String),
    EmailRegex(String),
    UsernameContains(String),
    UsernameRegex(String),
    UseragentLengthLte(usize),
    Lua(String),
}

/// A moderation effect of a rule.
#[derive(PartialEq, Eq, Structural, Clone, Copy, Debug)]
pub enum Action {
    Shadowban,
    EngineMark,
    BoostMark,
    IpBan,
    Close,
    Alt,
    EnableChatPanic,
    NotifyZulip,
}

/// A named condition with the actions it triggers and its bookkeeping.
pub struct Rule {
    pub name: String,
    pub criterion: Criterion,
    pub actions: Vec<Action>,
    pub match_count: usize,
    pub most_recent_caught: Vec<String>,
    pub no_delay: bool,
    pub enabled: bool,
    pub susp_ip: bool,
    /// Milliseconds since the epoch.
    pub expiry: Option<i64>,
    /// 0: nothing sent; 1: the notice that expiry is near was sent; 2: the
    /// notice of expiry was sent.
    pub exp_notification: u8,
    /// Milliseconds since the epoch.
    pub creation_date: i64,
    /// Milliseconds since the epoch.
    pub latest_match_date: Option<i64>,
}

pub fn default_match_count() -> (r: usize)
    ensures
        r == 0,
{
    0
}

pub fn default_mrc() -> (r: Vec<String>)
    ensures
        r@.len() == 0,
{
    Vec::new()
}

pub fn default_nodelay() -> (r: bool)
    ensures
        !r,
{
    false
}

pub fn default_enabled() -> (r: bool)
    ensures
        r,
{
    true
}

pub fn default_ip_susp() -> (r: bool)
    ensures
        !r,
{
    false
}

pub fn default_exp_notification() -> (r: u8)
    ensures
        r == 0,
{
    0
}

/// No two strings of `s` are equal.
pub open spec fn distinct_views(s: Seq<String>) -> bool {
    forall|i: int, j: int| 0 <= i < j < s.len() ==> s[i]@ != s[j]@
}

/// No two rules share a name.
pub open spec fn names_unique(rules: Seq<Rule>) -> bool {
    forall|i: int, j: int| 0 <= i < j < rules.len() ==> rules[i].name@ != rules[j].name@
}

/// Some rule has that name.
pub open spec fn has_name(rules: Seq<Rule>, name: Seq<char>) -> bool {
    exists|i: int| 0 <= i < rules.len() && rules[i].name@ == name
}

impl Rule {
    /// The limits of the fields: at most three recent matches, none repeated,
    /// and a known notification state.
    pub open spec fn wf(&self) -> bool {
        &&& self.most_recent_caught@.len() <= 3
        &&& distinct_views(self.most_recent_caught@)
        &&& self.exp_notification <= 2
    }

    /// Whether the rule's expiry lies before `now`.
    pub fn has_expired(&self, now: i64) -> (r: bool)
        ensures
            r == (self.expiry matches Some(e) && now > e),
    {
        match self.expiry {
            Some(e) => now > e,
            None => false,
        }
    }
}

/// Whether the criterion can be decided without a script: it is no script,
/// and a regular expression in it compiles.
pub open spec fn decidable(c: Criterion) -> bool {
    match c {
        Criterion::EmailRegex(p) => regex_compiles(p@),
        Criterion::UsernameRegex(p) => regex_compiles(p@),
        Criterion::Lua(_) => false,
        _ => true,
    }
}

/// A verdict with its error as text.
pub open spec fn verdict_view(r: Result<bool, ScriptError>) -> Result<bool, Seq<char>> {
    match r {
        Ok(b) => Ok(b),
        Err(e) => Err(e.message@),
    }
}

/// The verdict of a criterion on a user, where `script` is what running a
/// script criterion gave.
pub open spec fn decision(c: Criterion, u: User, script: Result<bool, Seq<char>>) -> Result<
    bool,
    Seq<char>,
> {
    if c is Lua {
        script
    } else if decidable(c) {
        Ok(criterion_holds(c, u))
    } else {
        Err("Invalid regex"@)
    }
}

/// What a decidable criterion says of a user.
pub open spec fn criterion_holds(c: Criterion, u: User) -> bool {
    match c {
        Criterion::IpMatch(ip) => ip.0@ == u.ip.0@,
        Criterion::PrintMatch(fp) => u.finger_print matches Some(f) && fp.0@ == f.0@,
        Criterion::EmailContains(part) => contains_seq(upper_of(u.email.0@), upper_of(part@)),
        Criterion::EmailRegex(p) => regex_matches(p@, u.email.0@),
        Criterion::UsernameContains(part) => contains_seq(
            upper_of(u.username.0@),
            upper_of(part@),
        ),
        Criterion::UsernameRegex(p) => regex_matches(p@, u.username.0@),
        Criterion::UseragentLengthLte(n) => u.user_agent matches Some(ua)
            && (vstd::utf8::encode_utf8(ua.0@).len() as usize) <= n,
        Criterion::Lua(_) => false,
    }
}

/// The text of an `Action`'s name.
pub open spec fn action_name(a: Action) -> Seq<char> {
    match a {
        Action::Shadowban => "Shadowban"@,
        Action::EngineMark => "EngineMark"@,
        Action::BoostMark => "BoostMark"@,
        Action::IpBan => "IpBan"@,
        Action::Close => "Close"@,
        Action::Alt => "Alt"@,
        Action::EnableChatPanic => "EnableChatPanic"@,
        Action::NotifyZulip => "NotifyZulip"@,
    }
}

/// A list of actions as `[A, B]`.
pub open spec fn actions_text(actions: Seq<Action>) -> Seq<char> {
    "["@ + join_seq(actions.map_values(|a: Action| action_name(a)), ", "@) + "]"@
}

/// The path of the moderation endpoint of an action, for a user, below the
/// configured host; none for the chat notification.
pub open spec fn endpoint_of(a: Action, u: Seq<char>) -> Option<Seq<char>> {
    match a {
        Action::Shadowban => Some("/mod/"@ + u + "/troll/true"@),
        Action::EngineMark => Some("/mod/"@ + u + "/engine/true"@),
        Action::BoostMark => Some("/mod/"@ + u + "/booster/true"@),
        Action::IpBan => Some("/mod/"@ + u + "/ban/true"@),
        Action::Close => Some("/mod/"@ + u + "/close"@),
        Action::Alt => Some("/mod/"@ + u + "/alt/true"@),
        Action::EnableChatPanic => Some("/mod/chat-panic"@),
        Action::NotifyZulip => None,
    }
}

/// How a criterion reads in chat.
pub open spec fn friendly_text(c: Criterion) -> Seq<char> {
    match c {
        Criterion::IpMatch(ip) => "IP equals `"@ + ip.0@ + "`"@,
        Criterion::PrintMatch(fp) => "Fingerprint hash equals `"@ + fp.0@ + "`"@,
        Criterion::EmailContains(s) => "Email address contains `"@ + s@ + "`"@,
        Criterion::EmailRegex(s) => "Email address matches regular expression `"@ + s@ + "`"@,
        Criterion::UsernameContains(s) => "Username contains (case-insensitive) `"@ + s@ + "`"@,
        Criterion::UsernameRegex(s) => "Username matches regular expression `"@ + s@ + "`"@,
        Criterion::UseragentLengthLte(l) => "User agent length is less than or equal to "@ + dec(
            l as nat,
        ),
        Criterion::Lua(code) => "Lua code `"@ + code@ + "` evaluates to true."@,
    }
}

fn wrapped(prefix: &str, middle: &str, suffix: &str) -> (r: String)
    ensures
        r@ == prefix@ + middle@ + suffix@,
{
    let mut s = string_from(prefix);
    push_str(&mut s, middle);
    push_str(&mut s, suffix);
    s
}

fn contains_folded(hay: &str, needle: &str) -> (r: bool)
    ensures
        r == contains_seq(upper_of(hay@), upper_of(needle@)),
{
    let h = to_upper(hay);
    let n = to_upper(needle);
    let hv = chars_of(h.as_str());
    let nv = chars_of(n.as_str());
    contains_chars(&hv, &nv)
}

impl Criterion {
    /// Whether the rule should act on the user. A script criterion's answer is
    /// `script`, which the caller obtained by running it; other criteria are
    /// decided here, and a regular expression that does not compile is an
    /// error.
    pub fn take_action(&self, user: &User, script: &Result<bool, ScriptError>) -> (r: Result<
        bool,
        ScriptError,
    >)
        ensures
            verdict_view(r) == decision(*self, *user, verdict_view(*script)),
    {
        match self {
            Criterion::IpMatch(exact) => Ok(exact.0 == user.ip.0),
            Criterion::PrintMatch(exact) => match &user.finger_print {
                None => Ok(false),
                Some(fp) => Ok(exact.0 == fp.0),
            },
            Criterion::EmailContains(part) => Ok(
                contains_folded(user.email.0.as_str(), part.as_str()),
            ),
            Criterion::EmailRegex(p) => {
                if compiles(p.as_str()) {
                    Ok(is_match(p.as_str(), user.email.0.as_str()))
                } else {
                    Err(ScriptError { message: string_from("Invalid regex") })
                }
            },
            Criterion::UsernameContains(part) => Ok(
                contains_folded(user.username.0.as_str(), part.as_str()),
            ),
            Criterion::UsernameRegex(p) => {
                if compiles(p.as_str()) {
                    Ok(is_match(p.as_str(), user.username.0.as_str()))
                } else {
                    Err(ScriptError { message: string_from("Invalid regex") })
                }
            },
            Criterion::UseragentLengthLte(len) => match &user.user_agent {
                None => Ok(false),
                Some(ua) => Ok(ua.0.as_str().len() <= *len),
            },
            Criterion::Lua(_) => match script {
                Ok(b) => Ok(*b),
                Err(e) => Err(ScriptError { message: e.message.clone() }),
            },
        }
    }

    /// How the criterion reads in chat.
    pub fn friendly(&self) -> (r: String)
        ensures
            r@ == friendly_text(*self),
    {
        match self {
            Criterion::IpMatch(exact) => wrapped("IP equals `", exact.0.as_str(), "`"),
            Criterion::PrintMatch(exact) => wrapped(
                "Fingerprint hash equals `",
                exact.0.as_str(),
                "`",
            ),
            Criterion::EmailContains(s) => wrapped("Email address contains `", s.as_str(), "`"),
            Criterion::EmailRegex(s) => wrapped(
                "Email address matches regular expression `",
                s.as_str(),
                "`",
            ),
            Criterion::UsernameContains(s) => wrapped(
                "Username contains (case-insensitive) `",
                s.as_str(),
                "`",
            ),
            Criterion::UsernameRegex(s) => wrapped(
                "Username matches regular expression `",
                s.as_str(),
                "`",
            ),
            Criterion::UseragentLengthLte(l) => {
                let mut s = string_from("User agent length is less than or equal to ");
                push_decimal(&mut s, *l as u64);
                s
            },
            Criterion::Lua(code) => wrapped("Lua code `", code.as_str(), "` evaluates to true."),
        }
    }
}

impl Action {
    /// The path, below the configured moderation host, of the endpoint that
    /// carries out the action for `username`; none for the chat notification.
    pub fn api_endpoint(&self, username: &Username) -> (r: Option<String>)
        ensures
            match r {
                Some(s) => endpoint_of(*self, username.0@) == Some(s@),
                None => endpoint_of(*self, username.0@) is None,
            },
    {
        let u = username.0.as_str();
        match self {
            Action::Shadowban => Some(wrapped("/mod/", u, "/troll/true")),
            Action::EngineMark => Some(wrapped("/mod/", u, "/engine/true")),
            Action::BoostMark => Some(wrapped("/mod/", u, "/booster/true")),
            Action::IpBan => Some(wrapped("/mod/", u, "/ban/true")),
            Action::Close => Some(wrapped("/mod/", u, "/close")),
            Action::Alt => Some(wrapped("/mod/", u, "/alt/true")),
            Action::EnableChatPanic => Some(string_from("/mod/chat-panic")),
            Action::NotifyZulip => None,
        }
    }

    /// The name of the action.
    pub fn name(&self) -> (r: String)
        ensures
            r@ == action_name(*self),
    {
        match self {
            Action::Shadowban => string_from("Shadowban"),
            Action::EngineMark => string_from("EngineMark"),
            Action::BoostMark => string_from("BoostMark"),
            Action::IpBan => string_from("IpBan"),
            Action::Close => string_from("Close"),
            Action::Alt => string_from("Alt"),
            Action::EnableChatPanic => string_from("EnableChatPanic"),
            Action::NotifyZulip => string_from("NotifyZulip"),
        }
    }
}

/// A list of actions as `[A, B]`.
pub fn describe_actions(actions: &Vec<Action>) -> (r: String)
    ensures
        r@ == actions_text(actions@),
{
    let mut names: Vec<String> = Vec::new();
    let mut i: usize = 0;
    while i < actions.len()
        invariant
            i <= actions@.len(),
            views(names@) == actions@.subrange(0, i as int).map_values(|a: Action| action_name(a)),
        decreases actions@.len() - i,
    {
        let ghost before = names@;
        names.push(actions[i].name());
        assert(views(names@) =~= views(before).push(action_name(actions@[i as int])));
        assert(actions@.subrange(0, i + 1).map_values(|a: Action| action_name(a)) =~= actions@.subrange(
            0,
            i as int,
        ).map_values(|a: Action| action_name(a)).push(action_name(actions@[i as int])));
        i += 1;
    }
    assert(actions@.subrange(0, i as int) =~= actions@);
    let inner = join(&names, ", ");
    wrapped("[", inner.as_str(), "]")
}

/// The rule catalogue, in insertion order, with the path of the file that
/// holds it. Every change here is to be written back by the caller.
pub struct SignupRulesManager {
    rules: Vec<Rule>,
    rules_path: String,
}

/// Every rule keeps the limits of its fields.
pub open spec fn all_wf(rules: Seq<Rule>) -> bool {
    forall|i: int| 0 <= i < rules.len() ==> (#[trigger] rules[i]).wf()
}

/// The names that `list_names` shows: a disabled rule's in parentheses.
pub open spec fn listed_name(r: Rule) -> Seq<char> {
    if r.enabled {
        r.name@
    } else {
        "("@ + r.name@ + ")"@
    }
}

/// `rule` with `enabled` set to `on`.
pub open spec fn with_enabled(rule: Rule, on: bool) -> Rule {
    Rule { enabled: on, ..rule }
}

/// The number of rules whose name the pattern matches.
pub open spec fn count_matching(rules: Seq<Rule>, p: Seq<char>) -> nat
    decreases rules.len(),
{
    if rules.len() == 0 {
        0
    } else {
        count_matching(rules.drop_last(), p) + if regex_matches(p, rules.last().name@) {
            1nat
        } else {
            0nat
        }
    }
}

/// No more rules match than there are.
pub proof fn lemma_count_matching_le(rules: Seq<Rule>, p: Seq<char>)
    ensures
        count_matching(rules, p) <= rules.len(),
    decreases rules.len(),
{
    if rules.len() > 0 {
        lemma_count_matching_le(rules.drop_last(), p);
    }
}

/// Some name of `names` is `u` when case is ignored.
pub open spec fn seen_among(names: Seq<Seq<char>>, u: Seq<char>) -> bool {
    exists|i: int| 0 <= i < names.len() && lower_of(names[i]) == lower_of(u)
}

/// Whether some string of `v` is `s` when case is ignored.
pub fn contains_ignoring_case(v: &Vec<String>, s: &String) -> (r: bool)
    ensures
        r == seen_among(views(v@), s@),
{
    let key = to_lower(s.as_str());
    let mut i: usize = 0;
    while i < v.len()
        invariant
            i <= v@.len(),
            key@ == lower_of(s@),
            forall|k: int| 0 <= k < i ==> lower_of(v@[k]@) != lower_of(s@),
        decreases v@.len() - i,
    {
        let l = to_lower(v[i].as_str());
        if l == key {
            assert(views(v@)[i as int] == v@[i as int]@);
            return true;
        }
        i += 1;
    }
    assert forall|k: int| 0 <= k < views(v@).len() implies lower_of(views(v@)[k]) != lower_of(s@) by {
        assert(views(v@)[k] == v@[k]@);
    }
    false
}

/// The recent matches after `user` joined them: the oldest leaves when more
/// than three would remain.
pub open spec fn caught_ring(mrc: Seq<Seq<char>>, user: Seq<char>) -> Seq<Seq<char>> {
    if mrc.len() >= 3 {
        mrc.push(user).drop_first()
    } else {
        mrc.push(user)
    }
}

/// `new` is `old` after it caught `user` at `now`: one more match, the match
/// date, and `user` among the recent matches; nothing else changed.
pub open spec fn caught_update(old: Rule, new: Rule, user: Seq<char>, now: i64) -> bool {
    &&& new.name == old.name
    &&& new.criterion == old.criterion
    &&& new.actions == old.actions
    &&& new.no_delay == old.no_delay
    &&& new.enabled == old.enabled
    &&& new.susp_ip == old.susp_ip
    &&& new.expiry == old.expiry
    &&& new.exp_notification == old.exp_notification
    &&& new.creation_date == old.creation_date
    &&& new.match_count == if old.match_count < usize::MAX {
        (old.match_count + 1) as usize
    } else {
        old.match_count
    }
    &&& new.latest_match_date == Some(now)
    &&& views(new.most_recent_caught@) == caught_ring(views(old.most_recent_caught@), user)
}

/// `rule` with a new expiry and no notice sent.
pub open spec fn renewed(rule: Rule, expiry: i64) -> Rule {
    Rule { expiry: Some(expiry), exp_notification: 0, ..rule }
}

/// A notice about a rule's expiry.
pub struct ExpiryNotice {
    pub rule: String,
    /// `false`: expiry is less than a day away; `true`: the rule has expired.
    pub expired: bool,
}

/// What one pass over expiry dates did.
pub struct ExpirySweep {
    pub notices: Vec<ExpiryNotice>,
    pub removed: Vec<String>,
}

/// The notification state of a rule after a pass at `now`: a notice that
/// expiry is near goes out first, within a day of it; the notice of expiry
/// goes out once it has passed.
pub open spec fn next_notification(expiry: Option<i64>, state: u8, now: i64) -> u8 {
    match expiry {
        Some(e) => if (e as int) < now + DAY_MS && state == 0 {
            1
        } else if (e as int) < (now as int) && state <= 1 {
            2
        } else {
            state
        },
        None => state,
    }
}

/// A rule is dropped three days after it expired.
pub open spec fn long_expired(expiry: Option<i64>, now: i64) -> bool {
    expiry matches Some(e) && (now as int) > e + 3 * DAY_MS
}

/// The rules that a pass keeps, with their new notification states.
pub open spec fn swept(rules: Seq<Rule>, now: i64) -> Seq<Rule>
    decreases rules.len(),
{
    if rules.len() == 0 {
        Seq::empty()
    } else {
        let rest = swept(rules.drop_last(), now);
        let r = rules.last();
        if long_expired(r.expiry, now) {
            rest
        } else {
            rest.push(Rule { exp_notification: next_notification(r.expiry, r.exp_notification, now), ..r })
        }
    }
}

/// The notices that a pass at `now` sends, in catalogue order: the rule's
/// name, and whether it is the notice of expiry.
pub open spec fn notices_of(rules: Seq<Rule>, now: i64) -> Seq<(Seq<char>, bool)>
    decreases rules.len(),
{
    if rules.len() == 0 {
        Seq::empty()
    } else {
        let rest = notices_of(rules.drop_last(), now);
        let r = rules.last();
        let next = next_notification(r.expiry, r.exp_notification, now);
        if next != r.exp_notification {
            rest.push((r.name@, next == 2))
        } else {
            rest
        }
    }
}

/// The names of the rules that a pass at `now` drops, in catalogue order.
pub open spec fn removed_of(rules: Seq<Rule>, now: i64) -> Seq<Seq<char>>
    decreases rules.len(),
{
    if rules.len() == 0 {
        Seq::empty()
    } else {
        let rest = removed_of(rules.drop_last(), now);
        if long_expired(rules.last().expiry, now) {
            rest.push(rules.last().name@)
        } else {
            rest
        }
    }
}

/// The views of a list of notices.
pub open spec fn notice_views(v: Seq<ExpiryNotice>) -> Seq<(Seq<char>, bool)> {
    v.map_values(|n: ExpiryNotice| (n.rule@, n.expired))
}

fn next_state(expiry: Option<i64>, state: u8, now: i64) -> (r: u8)
    ensures
        r == next_notification(expiry, state, now),
{
    match expiry {
        Some(e) => if (e as i128) < (now as i128) + (DAY_MS as i128) && state == 0 {
            1
        } else if e < now && state <= 1 {
            2
        } else {
            state
        },
        None => state,
    }
}

fn is_long_expired(expiry: Option<i64>, now: i64) -> (r: bool)
    ensures
        r == long_expired(expiry, now),
{
    match expiry {
        Some(e) => (now as i128) > (e as i128) + 3 * (DAY_MS as i128),
        None => false,
    }
}

proof fn lemma_swept_wf(rules: Seq<Rule>, now: i64)
    requires
        names_unique(rules),
        all_wf(rules),
    ensures
        names_unique(swept(rules, now)),
        all_wf(swept(rules, now)),
        forall|i: int| 0 <= i < swept(rules, now).len() ==> #[trigger] has_name(rules, swept(rules, now)[i].name@),
    decreases rules.len(),
{
    if rules.len() > 0 {
        let pre = rules.drop_last();
        assert forall|x: int, y: int| 0 <= x < y < pre.len() implies pre[x].name@ != pre[y].name@ by {
            assert(pre[x] == rules[x] && pre[y] == rules[y]);
        }
        assert forall|x: int| 0 <= x < pre.len() implies (#[trigger] pre[x]).wf() by {
            assert(pre[x] == rules[x]);
        }
        lemma_swept_wf(pre, now);
        let s = swept(rules, now);
        let sp = swept(pre, now);
        let last = rules.last();
        assert(last.wf()) by { assert(rules[rules.len() - 1] == last); }
        assert forall|i: int| 0 <= i < sp.len() implies #[trigger] sp[i].name@ != last.name@ by {
            assert(has_name(pre, sp[i].name@));
            let j = choose|j: int| 0 <= j < pre.len() && pre[j].name@ == sp[i].name@;
            assert(rules[j] == pre[j]);
        }
        assert forall|i: int| 0 <= i < s.len() implies #[trigger] has_name(rules, s[i].name@) by {
            if i < sp.len() {
                assert(s[i] == sp[i]);
                assert(has_name(pre, sp[i].name@));
                let j = choose|j: int| 0 <= j < pre.len() && pre[j].name@ == sp[i].name@;
                assert(rules[j] == pre[j]);
            } else {
                assert(rules[rules.len() - 1] == last);
            }
        }
        assert forall|x: int, y: int| 0 <= x < y < s.len() implies s[x].name@ != s[y].name@ by {
            if y < sp.len() {
                assert(s[x] == sp[x] && s[y] == sp[y]);
            } else {
                assert(s[x] == sp[x]);
                assert(sp[x].name@ != last.name@);
            }
        }
        assert forall|x: int| 0 <= x < s.len() implies (#[trigger] s[x]).wf() by {
            if x < sp.len() {
                assert(s[x] == sp[x]);
            }
        }
    }
}

fn same_strings(a: &Vec<String>, i: usize, j: usize) -> (r: bool)
    requires
        i < a@.len(),
        j < a@.len(),
    ensures
        r == (a@[i as int]@ == a@[j as int]@),
{
    a[i] == a[j]
}

fn distinct_strings(a: &Vec<String>) -> (r: bool)
    ensures
        r == distinct_views(a@),
{
    let mut j: usize = 0;
    while j < a.len()
        invariant
            j <= a@.len(),
            forall|x: int, y: int| 0 <= x < y < j ==> a@[x]@ != a@[y]@,
        decreases a@.len() - j,
    {
        let mut i: usize = 0;
        while i < j
            invariant
                i <= j < a@.len(),
                forall|x: int, y: int| 0 <= x < y < j ==> a@[x]@ != a@[y]@,
                forall|x: int| 0 <= x < i ==> a@[x]@ != a@[j as int]@,
            decreases j - i,
        {
            if same_strings(a, i, j) {
                return false;
            }
            i += 1;
        }
        j += 1;
    }
    true
}

fn rule_is_wf(r: &Rule) -> (b: bool)
    ensures
        b == r.wf(),
{
    r.most_recent_caught.len() <= 3 && distinct_strings(&r.most_recent_caught) && r.exp_notification
        <= 2
}

impl SignupRulesManager {
    /// The catalogue is well formed: names are unique and every rule keeps the
    /// limits of its fields.
    pub open spec fn wf(&self) -> bool {
        names_unique(self.rules_view()) && all_wf(self.rules_view())
    }

    /// The rules, in order.
    pub closed spec fn rules_view(&self) -> Seq<Rule> {
        self.rules@
    }

    /// The path of the catalogue's file.
    pub closed spec fn path_view(&self) -> Seq<char> {
        self.rules_path@
    }

    /// The rules, in order.
    pub fn rules(&self) -> (r: &Vec<Rule>)
        ensures
            r@ == self.rules_view(),
    {
        &self.rules
    }

    /// The path of the catalogue's file.
    pub fn rules_path(&self) -> (r: &String)
        ensures
            r@ == self.path_view(),
    {
        &self.rules_path
    }

    /// A catalogue of the rules read from `rules_path`; refused where two
    /// rules share a name or a rule breaks the limits of its fields.
    pub fn new(rules_path: String, rules: Vec<Rule>) -> (r: Result<Self, RuleStoreError>)
        ensures
            match r {
                Ok(m) => m.wf() && m.rules_view() == rules@ && m.path_view() == rules_path@,
                Err(e) => {
                    &&& !names_unique(rules@) ==> e == RuleStoreError::DuplicateName
                    &&& names_unique(rules@) ==> e == RuleStoreError::MalformedRule && !all_wf(
                        rules@,
                    )
                },
            },
            r is Ok <==> names_unique(rules@) && all_wf(rules@),
    {
        let mut j: usize = 0;
        while j < rules.len()
            invariant
                j <= rules@.len(),
                forall|x: int, y: int| 0 <= x < y < j ==> rules@[x].name@ != rules@[y].name@,
            decreases rules@.len() - j,
        {
            let mut i: usize = 0;
            while i < j
                invariant
                    i <= j < rules@.len(),
                    forall|x: int, y: int| 0 <= x < y < j ==> rules@[x].name@ != rules@[y].name@,
                    forall|x: int| 0 <= x < i ==> rules@[x].name@ != rules@[j as int].name@,
                decreases j - i,
            {
                if rules[i].name == rules[j].name {
                    return Err(RuleStoreError::DuplicateName);
                }
                i += 1;
            }
            j += 1;
        }
        assert(names_unique(rules@));
        let mut k: usize = 0;
        while k < rules.len()
            invariant
                k <= rules@.len(),
                names_unique(rules@),
                forall|x: int| 0 <= x < k ==> (#[trigger] rules@[x]).wf(),
            decreases rules@.len() - k,
        {
            if !rule_is_wf(&rules[k]) {
                assert(!all_wf(rules@)) by {
                    assert(!rules@[k as int].wf());
                }
                return Err(RuleStoreError::MalformedRule);
            }
            k += 1;
        }
        Ok(SignupRulesManager { rules, rules_path })
    }

    /// The index of the rule named `name`.
    pub fn position(&self, name: &String) -> (r: Option<usize>)
        ensures
            match r {
                Some(i) => i < self.rules_view().len() && self.rules_view()[i as int].name@ == name@,
                None => !has_name(self.rules_view(), name@),
            },
    {
        let mut i: usize = 0;
        while i < self.rules.len()
            invariant
                i <= self.rules@.len(),
                forall|k: int| 0 <= k < i ==> self.rules@[k].name@ != name@,
            decreases self.rules@.len() - i,
        {
            if self.rules[i].name == *name {
                return Some(i);
            }
            i += 1;
        }
        None
    }

    /// The rule named `name`.
    pub fn find_rule(&self, name: String) -> (r: Option<&Rule>)
        ensures
            match r {
                Some(rule) => exists|i: int|
                    0 <= i < self.rules_view().len() && self.rules_view()[i] == *rule
                        && rule.name@ == name@,
                None => !has_name(self.rules_view(), name@),
            },
    {
        match self.position(&name) {
            Some(i) => Some(&self.rules[i]),
            None => None,
        }
    }

    /// Appends `rule`, unless its name is taken or it breaks the limits of its
    /// fields.
    pub fn add_rule(&mut self, rule: Rule) -> (r: Result<(), RuleStoreError>)
        requires
            old(self).wf(),
        ensures
            final(self).wf(),
            final(self).path_view() == old(self).path_view(),
            has_name(old(self).rules_view(), rule.name@) ==> r == Err::<(), RuleStoreError>(
                RuleStoreError::DuplicateName,
            ),
            !has_name(old(self).rules_view(), rule.name@) && !rule.wf() ==> r == Err::<
                (),
                RuleStoreError,
            >(RuleStoreError::MalformedRule),
            r is Ok <==> !has_name(old(self).rules_view(), rule.name@) && rule.wf(),
            r is Ok ==> final(self).rules_view() == old(self).rules_view().push(rule),
            r is Err ==> final(self).rules_view() == old(self).rules_view(),
    {
        if self.position(&rule.name).is_some() {
            return Err(RuleStoreError::DuplicateName);
        }
        if !rule_is_wf(&rule) {
            return Err(RuleStoreError::MalformedRule);
        }
        self.rules.push(rule);
        Ok(())
    }

    /// Removes the rule named `name`; says whether there was one.
    pub fn remove_rule(&mut self, name: String) -> (r: bool)
        requires
            old(self).wf(),
        ensures
            final(self).wf(),
            final(self).path_view() == old(self).path_view(),
            r == has_name(old(self).rules_view(), name@),
            !r ==> final(self).rules_view() == old(self).rules_view(),
            r ==> exists|i: int|
                0 <= i < old(self).rules_view().len() && old(self).rules_view()[i].name@ == name@
                    && final(self).rules_view() == old(self).rules_view().remove(i),
            !has_name(final(self).rules_view(), name@),
    {
        match self.position(&name) {
            Some(i) => {
                let ghost before = self.rules@;
                self.rules.remove(i);
                assert forall|x: int, y: int| 0 <= x < y < self.rules@.len() implies self.rules@[x].name@
                    != self.rules@[y].name@ by {
                    let xo = if x < i { x } else { x + 1 };
                    let yo = if y < i { y } else { y + 1 };
                    assert(self.rules@[x] == before[xo]);
                    assert(self.rules@[y] == before[yo]);
                }
                assert forall|x: int| 0 <= x < self.rules@.len() implies (#[trigger] self.rules@[x]).wf() by {
                    let xo = if x < i { x } else { x + 1 };
                    assert(self.rules@[x] == before[xo]);
                }
                assert forall|x: int| 0 <= x < self.rules@.len() implies self.rules@[x].name@ != name@ by {
                    let xo = if x < i { x } else { x + 1 };
                    assert(self.rules@[x] == before[xo]);
                }
                true
            },
            None => false,
        }
    }

    fn enable_disable_rules(&mut self, pattern: String, enabled: bool) -> (r: Result<usize, RuleStoreError>)
        requires
            old(self).wf(),
        ensures
            final(self).wf(),
            final(self).path_view() == old(self).path_view(),
            !regex_compiles(pattern@) ==> r == Err::<usize, RuleStoreError>(
                RuleStoreError::InvalidPattern,
            ) && final(self).rules_view() == old(self).rules_view(),
            regex_compiles(pattern@) ==> r is Ok,
            r matches Ok(c) ==> c as nat == count_matching(old(self).rules_view(), pattern@),
            regex_compiles(pattern@) ==> final(self).rules_view().len() == old(self).rules_view().len(),
            regex_compiles(pattern@) ==> forall|i: int|
                0 <= i < old(self).rules_view().len() ==> #[trigger] final(self).rules_view()[i] == if regex_matches(
                    pattern@,
                    old(self).rules_view()[i].name@,
                ) {
                    with_enabled(old(self).rules_view()[i], enabled)
                } else {
                    old(self).rules_view()[i]
                },
    {
        if !compiles(pattern.as_str()) {
            return Err(RuleStoreError::InvalidPattern);
        }
        let ghost before = self.rules@;
        let mut counter: usize = 0;
        let mut i: usize = 0;
        while i < self.rules.len()
            invariant
                regex_compiles(pattern@),
                self.rules_path == old(self).rules_path,
                i <= self.rules@.len(),
                self.rules@.len() == before.len(),
                counter == count_matching(before.subrange(0, i as int), pattern@),
                counter <= i,
                forall|k: int| i <= k < before.len() ==> self.rules@[k] == before[k],
                forall|k: int|
                    0 <= k < i ==> #[trigger] self.rules@[k] == if regex_matches(pattern@, before[k].name@) {
                        with_enabled(before[k], enabled)
                    } else {
                        before[k]
                    },
            decreases before.len() - i,
        {
            assert(before.subrange(0, i + 1).drop_last() =~= before.subrange(0, i as int));
            if is_match(pattern.as_str(), self.rules[i].name.as_str()) {
                counter += 1;
                self.rules[i].enabled = enabled;
            }
            i += 1;
        }
        assert(before.subrange(0, i as int) =~= before);
        assert forall|x: int, y: int| 0 <= x < y < self.rules@.len() implies self.rules@[x].name@
            != self.rules@[y].name@ by {
            assert(self.rules@[x].name == before[x].name);
            assert(self.rules@[y].name == before[y].name);
        }
        assert forall|x: int| 0 <= x < self.rules@.len() implies (#[trigger] self.rules@[x]).wf() by {
            assert(before[x].wf());
        }
        Ok(counter)
    }

    /// Disables the rules whose name the pattern matches; gives their number.
    pub fn disable_rules(&mut self, pattern: String) -> (r: Result<usize, RuleStoreError>)
        requires
            old(self).wf(),
        ensures
            final(self).wf(),
            final(self).path_view() == old(self).path_view(),
            !regex_compiles(pattern@) ==> r == Err::<usize, RuleStoreError>(
                RuleStoreError::InvalidPattern,
            ) && final(self).rules_view() == old(self).rules_view(),
            regex_compiles(pattern@) ==> r is Ok,
            r matches Ok(c) ==> c as nat == count_matching(old(self).rules_view(), pattern@),
            regex_compiles(pattern@) ==> final(self).rules_view().len() == old(self).rules_view().len(),
            regex_compiles(pattern@) ==> forall|i: int|
                0 <= i < old(self).rules_view().len() ==> #[trigger] final(self).rules_view()[i] == if regex_matches(
                    pattern@,
                    old(self).rules_view()[i].name@,
                ) {
                    with_enabled(old(self).rules_view()[i], false)
                } else {
                    old(self).rules_view()[i]
                },
    {
        self.enable_disable_rules(pattern, false)
    }

    /// Enables the rules whose name the pattern matches; gives their number.
    pub fn enable_rules(&mut self, pattern: String) -> (r: Result<usize, RuleStoreError>)
        requires
            old(self).wf(),
        ensures
            final(self).wf(),
            final(self).path_view() == old(self).path_view(),
            !regex_compiles(pattern@) ==> r == Err::<usize, RuleStoreError>(
                RuleStoreError::InvalidPattern,
            ) && final(self).rules_view() == old(self).rules_view(),
            regex_compiles(pattern@) ==> r is Ok,
            r matches Ok(c) ==> c as nat == count_matching(old(self).rules_view(), pattern@),
            regex_compiles(pattern@) ==> final(self).rules_view().len() == old(self).rules_view().len(),
            regex_compiles(pattern@) ==> forall|i: int|
                0 <= i < old(self).rules_view().len() ==> #[trigger] final(self).rules_view()[i] == if regex_matches(
                    pattern@,
                    old(self).rules_view()[i].name@,
                ) {
                    with_enabled(old(self).rules_view()[i], true)
                } else {
                    old(self).rules_view()[i]
                },
    {
        self.enable_disable_rules(pattern, true)
    }

    /// Sets a new expiry on the rule named `rule_name` and forgets the notices
    /// sent about the old one; says whether there was such a rule.
    pub fn renew(&mut self, rule_name: String, expiry: i64) -> (r: bool)
        requires
            old(self).wf(),
        ensures
            final(self).wf(),
            final(self).path_view() == old(self).path_view(),
            r == has_name(old(self).rules_view(), rule_name@),
            !r ==> final(self).rules_view() == old(self).rules_view(),
            r ==> exists|i: int|
                0 <= i < old(self).rules_view().len() && old(self).rules_view()[i].name@
                    == rule_name@ && final(self).rules_view() == old(self).rules_view().update(
                    i,
                    renewed(old(self).rules_view()[i], expiry),
                ),
    {
        match self.position(&rule_name) {
            Some(i) => {
                let ghost before = self.rules@;
                self.rules[i].expiry = Some(expiry);
                self.rules[i].exp_notification = 0;
                assert(self.rules@ =~= before.update(i as int, renewed(before[i as int], expiry)));
                assert forall|x: int, y: int| 0 <= x < y < self.rules@.len() implies self.rules@[x].name@
                    != self.rules@[y].name@ by {
                    assert(self.rules@[x].name == before[x].name);
                    assert(self.rules@[y].name == before[y].name);
                }
                assert forall|x: int| 0 <= x < self.rules@.len() implies (#[trigger] self.rules@[x]).wf() by {
                    assert(before[x].wf());
                }
                true
            },
            None => false,
        }
    }

    /// The names of the rules, in order; a disabled rule's in parentheses.
    pub fn list_names(&self) -> (r: Vec<String>)
        ensures
            views(r@) == self.rules_view().map_values(|x: Rule| listed_name(x)),
    {
        let mut out: Vec<String> = Vec::new();
        let mut i: usize = 0;
        while i < self.rules.len()
            invariant
                i <= self.rules@.len(),
                views(out@) == self.rules@.subrange(0, i as int).map_values(|x: Rule| listed_name(x)),
            decreases self.rules@.len() - i,
        {
            let rule = &self.rules[i];
            let shown = if rule.enabled {
                rule.name.clone()
            } else {
                wrapped("(", rule.name.as_str(), ")")
            };
            let ghost before = out@;
            out.push(shown);
            assert(views(out@) =~= views(before).push(listed_name(self.rules@[i as int])));
            assert(self.rules@.subrange(0, i + 1).map_values(|x: Rule| listed_name(x)) =~= self.rules@.subrange(
                0,
                i as int,
            ).map_values(|x: Rule| listed_name(x)).push(listed_name(self.rules@[i as int])));
            i += 1;
        }
        assert(self.rules@.subrange(0, i as int) =~= self.rules@);
        out
    }

    /// Records that the rule named `name` caught `user` at `now`, unless
    /// `user` is among its recent matches already; says whether anything
    /// changed.
    pub fn caught(&mut self, name: String, user: &Username, now: i64) -> (r: Result<bool, RuleStoreError>)
        requires
            old(self).wf(),
        ensures
            final(self).wf(),
            final(self).path_view() == old(self).path_view(),
            !has_name(old(self).rules_view(), name@) ==> r == Err::<bool, RuleStoreError>(
                RuleStoreError::NotFound,
            ),
            r is Err ==> final(self).rules_view() == old(self).rules_view(),
            has_name(old(self).rules_view(), name@) ==> exists|i: int|
                0 <= i < old(self).rules_view().len() && old(self).rules_view()[i].name@ == name@
                    && ({
                    let before = old(self).rules_view()[i];
                    if seen_among(views(before.most_recent_caught@), user.0@) {
                        r == Ok::<bool, RuleStoreError>(false) && final(self).rules_view()
                            == old(self).rules_view()
                    } else {
                        &&& r == Ok::<bool, RuleStoreError>(true)
                        &&& final(self).rules_view().len() == old(self).rules_view().len()
                        &&& forall|k: int|
                            0 <= k < old(self).rules_view().len() && k != i
                                ==> final(self).rules_view()[k] == old(self).rules_view()[k]
                        &&& caught_update(before, final(self).rules_view()[i], user.0@, now)
                    }
                }),
    {
        let i = match self.position(&name) {
            Some(i) => i,
            None => {
                return Err(RuleStoreError::NotFound);
            },
        };
        let ghost before = self.rules@;
        let ghost old_rule = self.rules@[i as int];
        if contains_ignoring_case(&self.rules[i].most_recent_caught, &user.0) {
            return Ok(false);
        }
        assert(!views(old_rule.most_recent_caught@).contains(user.0@)) by {
            if views(old_rule.most_recent_caught@).contains(user.0@) {
                let k = choose|k: int| 0 <= k < views(old_rule.most_recent_caught@).len() && views(old_rule.most_recent_caught@)[k] == user.0@;
                assert(lower_of(views(old_rule.most_recent_caught@)[k]) == lower_of(user.0@));
            }
        }
        if self.rules[i].match_count < usize::MAX {
            self.rules[i].match_count = self.rules[i].match_count + 1;
        }
        self.rules[i].latest_match_date = Some(now);
        let ghost mrc0 = self.rules@[i as int].most_recent_caught@;
        self.rules[i].most_recent_caught.push(user.0.clone());
        if self.rules[i].most_recent_caught.len() > 3 {
            self.rules[i].most_recent_caught.remove(0);
        }
        let ghost mrc1 = self.rules@[i as int].most_recent_caught@;
        assert(views(mrc1) =~= caught_ring(views(mrc0), user.0@));
        assert(distinct_views(mrc1)) by {
            assert forall|x: int, y: int| 0 <= x < y < mrc1.len() implies mrc1[x]@ != mrc1[y]@ by {
                assert(views(mrc1)[x] == mrc1[x]@);
                assert(views(mrc1)[y] == mrc1[y]@);
                let m0 = views(mrc0);
                if y == mrc1.len() - 1 {
                    assert(views(mrc1)[y] == user.0@);
                    if mrc0.len() >= 3 {
                        assert(views(mrc1)[x] == m0[x + 1]);
                        assert(m0.contains(m0[x + 1]));
                    } else {
                        assert(views(mrc1)[x] == m0[x]);
                        assert(m0.contains(m0[x]));
                    }
                } else if mrc0.len() >= 3 {
                    assert(views(mrc1)[x] == m0[x + 1]);
                    assert(views(mrc1)[y] == m0[y + 1]);
                    assert(mrc0[x + 1]@ == m0[x + 1]);
                    assert(mrc0[y + 1]@ == m0[y + 1]);
                } else {
                    assert(views(mrc1)[x] == m0[x]);
                    assert(views(mrc1)[y] == m0[y]);
                    assert(mrc0[x]@ == m0[x]);
                    assert(mrc0[y]@ == m0[y]);
                }
            }
        }
        assert forall|x: int, y: int| 0 <= x < y < self.rules@.len() implies self.rules@[x].name@
            != self.rules@[y].name@ by {
            assert(self.rules@[x].name == before[x].name);
            assert(self.rules@[y].name == before[y].name);
        }
        assert forall|x: int| 0 <= x < self.rules@.len() implies (#[trigger] self.rules@[x]).wf() by {
            assert(before[x].wf());
        }
        Ok(true)
    }

    /// One pass over expiry dates at `now`: sends each rule the notice its
    /// expiry calls for, then drops the rules that expired more than three
    /// days ago.
    pub fn sweep_expiry(&mut self, now: i64) -> (r: ExpirySweep)
        requires
            old(self).wf(),
        ensures
            final(self).wf(),
            final(self).path_view() == old(self).path_view(),
            final(self).rules_view() == swept(old(self).rules_view(), now),
            notice_views(r.notices@) == notices_of(old(self).rules_view(), now),
            views(r.removed@) == removed_of(old(self).rules_view(), now),
    {
        let ghost before = self.rules@;
        let mut pending: Vec<Rule> = Vec::new();
        std::mem::swap(&mut pending, &mut self.rules);
        let mut kept: Vec<Rule> = Vec::new();
        let mut notices: Vec<ExpiryNotice> = Vec::new();
        let mut removed: Vec<String> = Vec::new();
        let ghost mut done: int = 0;
        while pending.len() > 0
            invariant
                0 <= done <= before.len(),
                pending@ == before.subrange(done, before.len() as int),
                kept@ == swept(before.subrange(0, done), now),
                notice_views(notices@) == notices_of(before.subrange(0, done), now),
                views(removed@) == removed_of(before.subrange(0, done), now),
                self.rules_path == old(self).rules_path,
            decreases pending@.len(),
        {
            let mut rule = pending.remove(0);
            proof {
                assert(before.subrange(0, done + 1).drop_last() =~= before.subrange(0, done));
                assert(rule == before[done]);
            }
            let next = next_state(rule.expiry, rule.exp_notification, now);
            if next != rule.exp_notification {
                let ghost nb = notices@;
                notices.push(ExpiryNotice { rule: rule.name.clone(), expired: next == 2 });
                assert(notice_views(notices@) =~= notice_views(nb).push((rule.name@, next == 2)));
            }
            if is_long_expired(rule.expiry, now) {
                let ghost rb = removed@;
                removed.push(rule.name.clone());
                assert(views(removed@) =~= views(rb).push(rule.name@));
            } else {
                rule.exp_notification = next;
                kept.push(rule);
            }
            proof {
                done = done + 1;
                assert(pending@ =~= before.subrange(done, before.len() as int));
            }
        }
        assert(before.subrange(0, done) =~= before);
        self.rules = kept;
        proof {
            lemma_swept_wf(before, now);
        }
        ExpirySweep { notices, removed }
    }
}

/// After `add_rule` appends a rule, the one rule under its name is that rule,
/// so `find_rule` gives it back.
pub proof fn lemma_added_rule_is_found(before: Seq<Rule>, rule: Rule)
    requires
        names_unique(before),
        !has_name(before, rule.name@),
    ensures
        names_unique(before.push(rule)),
        has_name(before.push(rule), rule.name@),
        forall|i: int|
            0 <= i < before.len() + 1 && (#[trigger] before.push(rule)[i]).name@ == rule.name@
                ==> before.push(rule)[i] == rule,
{
    let after = before.push(rule);
    assert(after[before.len() as int] == rule);
    assert forall|i: int| 0 <= i < before.len() + 1 && (#[trigger] after[i]).name@ == rule.name@ implies after[i] == rule by {
        if i < before.len() {
            assert(after[i] == before[i]);
        }
    }
    assert forall|x: int, y: int| 0 <= x < y < after.len() implies after[x].name@ != after[y].name@ by {
        assert(after[x] == before[x]);
        if y < before.len() {
            assert(after[y] == before[y]);
        }
    }
}

/// Disabling the rules that a pattern matches and then enabling them again
/// leaves the catalogue as it was, where those rules were enabled.
pub proof fn lemma_disable_then_enable(before: Seq<Rule>, mid: Seq<Rule>, after: Seq<Rule>, p: Seq<char>)
    requires
        mid.len() == before.len(),
        forall|i: int|
            0 <= i < before.len() ==> #[trigger] mid[i] == if regex_matches(p, before[i].name@) {
                with_enabled(before[i], false)
            } else {
                before[i]
            },
        after.len() == mid.len(),
        forall|i: int|
            0 <= i < mid.len() ==> #[trigger] after[i] == if regex_matches(p, mid[i].name@) {
                with_enabled(mid[i], true)
            } else {
                mid[i]
            },
        forall|i: int| 0 <= i < before.len() && regex_matches(p, before[i].name@) ==> #[trigger] before[i].enabled,
    ensures
        after == before,
{
    assert forall|i: int| 0 <= i < before.len() implies after[i] == before[i] by {
        let b = before[i];
        assert(mid[i].name == b.name);
        if regex_matches(p, b.name@) {
            assert(b.enabled);
            assert(after[i] == with_enabled(with_enabled(b, false), true));
            assert(with_enabled(with_enabled(b, false), true) == b);
        }
    }
    assert(after =~= before);
}

/// A rule that took note of a user holds the user among its recent matches,
/// so a second note of the same user, in any case, changes nothing.
pub proof fn lemma_caught_holds_user(before: Rule, after: Rule, user: Seq<char>, now: i64)
    requires
        caught_update(before, after, user, now),
    ensures
        views(after.most_recent_caught@).contains(user),
        forall|other: Seq<char>| lower_of(other) == lower_of(user) ==> #[trigger] seen_among(views(after.most_recent_caught@), other),
        views(after.most_recent_caught@).len() <= 3 || views(before.most_recent_caught@).len() > 3,
{
    let ring = views(after.most_recent_caught@);
    assert(ring[ring.len() - 1] == user);
}

/// How many of the rules a pass at `now` keeps.
pub open spec fn kept_count(rules: Seq<Rule>, now: i64) -> nat
    decreases rules.len(),
{
    if rules.len() == 0 {
        0
    } else {
        kept_count(rules.drop_last(), now) + if long_expired(rules.last().expiry, now) {
            0nat
        } else {
            1nat
        }
    }
}

/// A rule after a pass at `now` updated its notification state.
pub open spec fn swept_rule(r: Rule, now: i64) -> Rule {
    Rule { exp_notification: next_notification(r.expiry, r.exp_notification, now), ..r }
}

proof fn lemma_swept_positions(rules: Seq<Rule>, now: i64)
    ensures
        swept(rules, now).len() == kept_count(rules, now),
        forall|i: int|
            0 <= i < rules.len() && !long_expired(rules[i].expiry, now) ==> kept_count(rules.subrange(0, i), now)
                < swept(rules, now).len() && swept(rules, now)[kept_count(rules.subrange(0, i), now) as int]
                == swept_rule(rules[i], now),
    decreases rules.len(),
{
    if rules.len() > 0 {
        let pre = rules.drop_last();
        lemma_swept_positions(pre, now);
        let s = swept(rules, now);
        let sp = swept(pre, now);
        let last = rules.len() - 1;
        assert(rules.subrange(0, last) =~= pre);
        assert(rules[last] == rules.last());
        if !long_expired(rules.last().expiry, now) {
            assert(s == sp.push(swept_rule(rules.last(), now)));
        } else {
            assert(s == sp);
        }
        assert forall|i: int|
            0 <= i < rules.len() && !long_expired(rules[i].expiry, now) implies kept_count(rules.subrange(0, i), now)
                < s.len() && s[kept_count(rules.subrange(0, i), now) as int] == swept_rule(rules[i], now) by {
            if i < last {
                assert(rules.subrange(0, i) =~= pre.subrange(0, i));
                assert(pre[i] == rules[i]);
                assert(s[kept_count(pre.subrange(0, i), now) as int] == sp[kept_count(pre.subrange(0, i), now) as int]);
            }
        }
    }
}

proof fn lemma_swept_sources(rules: Seq<Rule>, now: i64)
    ensures
        forall|j: int|
            0 <= j < swept(rules, now).len() ==> exists|i: int|
                0 <= i < rules.len() && !long_expired(rules[i].expiry, now) && #[trigger] swept(rules, now)[j]
                    == swept_rule(rules[i], now),
    decreases rules.len(),
{
    if rules.len() > 0 {
        let pre = rules.drop_last();
        lemma_swept_sources(pre, now);
        let s = swept(rules, now);
        let sp = swept(pre, now);
        let last = rules.len() - 1;
        assert(rules[last] == rules.last());
        assert forall|j: int| 0 <= j < s.len() implies exists|i: int|
            0 <= i < rules.len() && !long_expired(rules[i].expiry, now) && #[trigger] s[j] == swept_rule(rules[i], now) by {
            if j < sp.len() {
                let i = choose|i: int|
                    0 <= i < pre.len() && !long_expired(pre[i].expiry, now) && #[trigger] sp[j] == swept_rule(pre[i], now);
                assert(rules[i] == pre[i]);
                assert(s[j] == sp[j]);
            }
        }
    }
}

proof fn lemma_notice_sources(rules: Seq<Rule>, now: i64)
    ensures
        forall|j: int|
            0 <= j < notices_of(rules, now).len() ==> exists|i: int|
                0 <= i < rules.len() && (#[trigger] notices_of(rules, now)[j]).0 == rules[i].name@
                    && next_notification(rules[i].expiry, rules[i].exp_notification, now)
                    != rules[i].exp_notification,
    decreases rules.len(),
{
    if rules.len() > 0 {
        let pre = rules.drop_last();
        lemma_notice_sources(pre, now);
        let ns = notices_of(rules, now);
        let np = notices_of(pre, now);
        assert forall|j: int| 0 <= j < ns.len() implies exists|i: int|
            0 <= i < rules.len() && (#[trigger] ns[j]).0 == rules[i].name@ && next_notification(
                rules[i].expiry,
                rules[i].exp_notification,
                now,
            ) != rules[i].exp_notification by {
            if j < np.len() {
                let i = choose|i: int|
                    0 <= i < pre.len() && (#[trigger] np[j]).0 == pre[i].name@ && next_notification(
                        pre[i].expiry,
                        pre[i].exp_notification,
                        now,
                    ) != pre[i].exp_notification;
                assert(rules[i] == pre[i]);
                assert(ns[j] == np[j]);
            } else {
                assert(rules[rules.len() - 1] == rules.last());
            }
        }
    }
}

/// A pass over expiry dates at `now` drops a rule that expired more than
/// three days ago and was told of its expiry, sends no notice about it, and
/// keeps every other rule that has not expired that long, in order, with
/// only its notification state changed; whatever else the catalogue holds.
pub proof fn lemma_sweep_removes_long_expired(rules: Seq<Rule>, now: i64, k: int)
    requires
        names_unique(rules),
        0 <= k < rules.len(),
        long_expired(rules[k].expiry, now),
        rules[k].exp_notification == 2,
    ensures
        !has_name(swept(rules, now), rules[k].name@),
        forall|j: int|
            0 <= j < notices_of(rules, now).len() ==> (#[trigger] notices_of(rules, now)[j]).0
                != rules[k].name@,
        forall|i: int|
            0 <= i < rules.len() && !long_expired(rules[i].expiry, now) ==> swept(rules, now)[kept_count(
                rules.subrange(0, i),
                now,
            ) as int] == swept_rule(rules[i], now),
        forall|a: int, b: int|
            0 <= a < b < rules.len() && !long_expired(rules[a].expiry, now) && !long_expired(
                rules[b].expiry,
                now,
            ) ==> kept_count(rules.subrange(0, a), now) < kept_count(rules.subrange(0, b), now),
{
    lemma_swept_positions(rules, now);
    lemma_swept_sources(rules, now);
    lemma_notice_sources(rules, now);
    let s = swept(rules, now);
    let x = rules[k].name@;
    if has_name(s, x) {
        let j = choose|j: int| 0 <= j < s.len() && s[j].name@ == x;
        let i = choose|i: int| 0 <= i < rules.len() && !long_expired(rules[i].expiry, now) && #[trigger] s[j] == swept_rule(rules[i], now);
        assert(rules[i].name@ == x);
        if i < k {
            assert(rules[i].name@ != rules[k].name@);
        } else if i > k {
            assert(rules[k].name@ != rules[i].name@);
        }
    }
    let ns = notices_of(rules, now);
    assert forall|j: int| 0 <= j < ns.len() implies (#[trigger] ns[j]).0 != x by {
        let i = choose|i: int|
            0 <= i < rules.len() && (#[trigger] ns[j]).0 == rules[i].name@ && next_notification(
                rules[i].expiry,
                rules[i].exp_notification,
                now,
            ) != rules[i].exp_notification;
        if i < k {
            assert(rules[i].name@ != rules[k].name@);
        } else if i > k {
            assert(rules[k].name@ != rules[i].name@);
        }
    }
    assert forall|a: int, b: int|
        0 <= a < b < rules.len() && !long_expired(rules[a].expiry, now) && !long_expired(
            rules[b].expiry,
            now,
        ) implies kept_count(rules.subrange(0, a), now) < kept_count(rules.subrange(0, b), now) by {
        lemma_kept_count_grows(rules, now, a, b);
    }
}

proof fn lemma_kept_count_grows(rules: Seq<Rule>, now: i64, a: int, b: int)
    requires
        0 <= a < b <= rules.len(),
        !long_expired(rules[a].expiry, now),
    ensures
        kept_count(rules.subrange(0, a), now) < kept_count(rules.subrange(0, b), now),
    decreases b - a,
{
    let sb = rules.subrange(0, b);
    assert(sb.drop_last() =~= rules.subrange(0, b - 1));
    if b - 1 == a {
        assert(sb.last() == rules[a]);
    } else {
        lemma_kept_count_grows(rules, now, a, b - 1);
    }
}

} // verus!
