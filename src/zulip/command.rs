//! The command language that operators speak to the daemon.
use vstd::prelude::*;
use crate::event::{Email, Event, Ip, User, Username};
use crate::pattern::{compiles, regex_compiles};
use crate::signup::rules::{Action, Criterion, Rule, DAY_MS};
use crate::text::{
    join, join_seq, parse_unsigned, parsed_unsigned, split, split_seq, starts_with,
    starts_with_seq, string_from, trim, trim_seq, views, push_str, same_text,
};

verus! {

/// A command that could not be understood, with the reason for the operator.
#[derive(Debug)]
pub struct ParseError {
    pub message: String,
}

/// What an understood command asks for.
pub enum Command {
    /// An event for the dispatcher.
    Dispatch(Event),
    /// A dry run on the user that this JSON text describes; the caller reads
    /// it and hands the dispatcher a hypothetical signup.
    TestUser(String),
}

/// The reason given when nothing more precise applies.
pub open spec fn default_message() -> Seq<char> {
    "Could not parse user command"@
}

/// The reason given for a malformed duration.
pub open spec fn duration_message() -> Seq<char> {
    "Invalid expiry date format. Example: `14d`. Supported: `d` (day), `w` (week)."@
}

/// An error with the given reason, or the default one.
pub fn parse_error(msg: Option<&str>) -> (r: ParseError)
    ensures
        r.message@ == match msg {
            Some(m) => m@,
            None => default_message(),
        },
{
    match msg {
        Some(m) => ParseError { message: string_from(m) },
        None => ParseError { message: string_from("Could not parse user command") },
    }
}

impl ParseError {
    /// The reason, for the operator.
    pub fn description(&self) -> (r: &str)
        ensures
            r@ == self.message@,
    {
        self.message.as_str()
    }
}

/// A criterion as a command states it.
pub enum CriterionDraft {
    Ip(Seq<char>),
    Print(Seq<char>),
    EmailContains(Seq<char>),
    EmailRegex(Seq<char>),
    UsernameContains(Seq<char>),
    UsernameRegex(Seq<char>),
    UseragentLengthLte(nat),
    Lua(Seq<char>),
}

/// A new rule as a command states it.
pub struct RuleDraft {
    pub name: Seq<char>,
    pub criterion: CriterionDraft,
    pub actions: Seq<Action>,
    pub no_delay: bool,
    pub susp_ip: bool,
    pub expiry: Option<int>,
    pub created: int,
}

/// The meaning of a command.
pub enum Parsed {
    Failed(Seq<char>),
    Status,
    NameCheck(Seq<char>),
    Seen(Seq<char>),
    AddRule(RuleDraft),
    Show(Seq<char>),
    Remove(Seq<char>),
    DisableRe(Seq<char>),
    EnableRe(Seq<char>),
    Renew(Seq<char>, int),
    List,
    Test(Seq<char>),
    Other,
}

/// The criterion of a rule, as a command would state it.
pub open spec fn criterion_draft(c: Criterion) -> CriterionDraft {
    match c {
        Criterion::IpMatch(ip) => CriterionDraft::Ip(ip.0@),
        Criterion::PrintMatch(fp) => CriterionDraft::Print(fp.0@),
        Criterion::EmailContains(s) => CriterionDraft::EmailContains(s@),
        Criterion::EmailRegex(s) => CriterionDraft::EmailRegex(s@),
        Criterion::UsernameContains(s) => CriterionDraft::UsernameContains(s@),
        Criterion::UsernameRegex(s) => CriterionDraft::UsernameRegex(s@),
        Criterion::UseragentLengthLte(n) => CriterionDraft::UseragentLengthLte(n as nat),
        Criterion::Lua(s) => CriterionDraft::Lua(s@),
    }
}

/// A rule that has never matched, is enabled, and has sent no notice.
pub open spec fn fresh(rule: Rule) -> bool {
    &&& rule.match_count == 0
    &&& rule.most_recent_caught@.len() == 0
    &&& rule.enabled
    &&& rule.exp_notification == 0
    &&& rule.latest_match_date is None
}

/// The user that a name check runs: only the name is the operator's.
pub open spec fn probe_user(u: User) -> bool {
    &&& u.email.0@ == "qwe@asd.zxc"@
    &&& u.ip.0@ == "127.0.0.1"@
    &&& u.user_agent is None
    &&& u.finger_print is None
    &&& !u.susp_ip
    &&& u.geoip is None
    &&& u.device is None
}

/// The meaning of what a command parser returned.
pub open spec fn parsed_view(r: Result<Command, ParseError>) -> Parsed {
    match r {
        Err(e) => Parsed::Failed(e.message@),
        Ok(Command::TestUser(j)) => Parsed::Test(j@),
        Ok(Command::Dispatch(ev)) => match ev {
            Event::InternalZulipStatusCommand => Parsed::Status,
            Event::InternalHypotheticalSignup(u) => if probe_user(u) {
                Parsed::NameCheck(u.username.0@)
            } else {
                Parsed::Other
            },
            Event::InternalIsRecentlyChecked(n) => Parsed::Seen(n@),
            Event::InternalAddRule { rule } => if fresh(rule) {
                Parsed::AddRule(
                    RuleDraft {
                        name: rule.name@,
                        criterion: criterion_draft(rule.criterion),
                        actions: rule.actions@,
                        no_delay: rule.no_delay,
                        susp_ip: rule.susp_ip,
                        expiry: match rule.expiry {
                            Some(e) => Some(e as int),
                            None => None,
                        },
                        created: rule.creation_date as int,
                    },
                )
            } else {
                Parsed::Other
            },
            Event::InternalShowRule(n) => Parsed::Show(n@),
            Event::InternalRemoveRule(n) => Parsed::Remove(n@),
            Event::InternalDisableRules(p) => Parsed::DisableRe(p@),
            Event::InternalEnableRules(p) => Parsed::EnableRe(p@),
            Event::InternalRenewRule { rule, new_expiry } => Parsed::Renew(rule@, new_expiry as int),
            Event::InternalListRules => Parsed::List,
            _ => Parsed::Other,
        },
    }
}

/// The action that a word of a command names.
pub open spec fn action_of(w: Seq<char>) -> Option<Action> {
    if w == "shadowban"@ {
        Some(Action::Shadowban)
    } else if w == "engine"@ {
        Some(Action::EngineMark)
    } else if w == "boost"@ {
        Some(Action::BoostMark)
    } else if w == "ipban"@ {
        Some(Action::IpBan)
    } else if w == "close"@ {
        Some(Action::Close)
    } else if w == "alt"@ {
        Some(Action::Alt)
    } else if w == "panic"@ {
        Some(Action::EnableChatPanic)
    } else if w == "notify"@ {
        Some(Action::NotifyZulip)
    } else {
        None
    }
}

/// The actions that the words name, where every word names one.
pub open spec fn actions_of(words: Seq<Seq<char>>) -> Option<Seq<Action>>
    decreases words.len(),
{
    if words.len() == 0 {
        Some(Seq::empty())
    } else {
        match (actions_of(words.drop_last()), action_of(words.last())) {
            (Some(a), Some(b)) => Some(a.push(b)),
            _ => None,
        }
    }
}

/// The length of a duration such as `14d` or `2w`, in milliseconds.
pub open spec fn duration_ms(s: Seq<char>) -> Option<int> {
    if s.len() == 0 {
        None
    } else {
        let step = s.last();
        match parsed_unsigned(s.drop_last(), 0xffff_ffff) {
            Some(n) => if n == 0 {
                None
            } else if step == 'd' {
                Some(n * DAY_MS)
            } else if step == 'w' {
                Some(n * 7 * DAY_MS)
            } else {
                None
            },
            None => None,
        }
    }
}

/// `now` moved forward by `ms`, held at the largest time.
pub open spec fn later(now: i64, ms: int) -> int {
    if now + ms > i64::MAX {
        i64::MAX as int
    } else {
        now + ms
    }
}

/// The code between the first two backticks of a command, if it has them.
pub open spec fn code_of(cmd: Seq<char>) -> Seq<char> {
    let bs = split_seq(cmd, '`');
    if bs.len() > 2 {
        bs[1]
    } else {
        Seq::empty()
    }
}

/// The words after the first of a command, where the code between backticks
/// counts as the one word `$`, followed by another `$`.
pub open spec fn args_of(cmd: Seq<char>) -> Seq<Seq<char>> {
    let bs = split_seq(cmd, '`');
    let parts = if bs.len() > 2 {
        bs.update(0, trim_seq(bs[0])).update(1, "$ $"@).update(2, trim_seq(bs[2]))
    } else {
        bs
    };
    split_seq(join_seq(parts, " "@), ' ').drop_first()
}

/// A pattern made case-insensitive.
pub open spec fn insensitive(v: Seq<char>) -> Seq<char> {
    if starts_with_seq(v, "(?i)"@) {
        v
    } else {
        "(?i)"@ + v
    }
}

/// The criterion that words 4 to 6 of `rules add` state.
pub open spec fn criterion_spec(element: Seq<char>, check: Seq<char>, value: Seq<char>, code: Seq<char>) -> Result<CriterionDraft, Seq<char>> {
    if element == "ip"@ {
        if check == "equals"@ { Ok(CriterionDraft::Ip(value)) } else { Err(default_message()) }
    } else if element == "print"@ {
        Err("Use lichess print ban instead"@)
    } else if element == "email"@ || element == "username"@ {
        if check == "contains"@ {
            Ok(if element == "email"@ { CriterionDraft::EmailContains(value) } else { CriterionDraft::UsernameContains(value) })
        } else if check == "regex"@ {
            if regex_compiles(insensitive(value)) {
                Ok(if element == "email"@ {
                    CriterionDraft::EmailRegex(insensitive(value))
                } else {
                    CriterionDraft::UsernameRegex(insensitive(value))
                })
            } else {
                Err("Invalid regex"@)
            }
        } else {
            Err(default_message())
        }
    } else if element == "useragent"@ {
        if check == "length-lte"@ {
            match parsed_unsigned(value, usize::MAX as nat) {
                Some(n) => Ok(CriterionDraft::UseragentLengthLte(n)),
                None => Err("Can't parse int"@),
            }
        } else {
            Err(default_message())
        }
    } else if element == "lua"@ {
        Ok(CriterionDraft::Lua(code))
    } else {
        Err(default_message())
    }
}

/// The expiry that the words from `k` on state: `noexpiry`, `expiry` with a
/// duration, or by default half a year.
pub open spec fn expiry_spec(args: Seq<Seq<char>>, k: int, now: i64) -> Result<Option<int>, Seq<char>> {
    if args.len() > k && args[k] == "noexpiry"@ {
        Ok(None)
    } else if args.len() > k && args[k] == "expiry"@ {
        if args.len() > k + 1 {
            match duration_ms(args[k + 1]) {
                Some(ms) => Ok(Some(later(now, ms))),
                None => Err(duration_message()),
            }
        } else {
            Err(duration_message())
        }
    } else {
        Ok(Some(later(now, 182 * DAY_MS)))
    }
}

/// The meaning of `signup rules add ...`.
pub open spec fn add_spec(args: Seq<Seq<char>>, code: Seq<char>, now: i64) -> Parsed {
    if args.len() <= 3 {
        Parsed::Failed(default_message())
    } else {
        let susp = args[3] == "if_susp_ip"@ || args[3] == "if_ip_susp"@;
        if !(args[3] == "if"@ || susp) || args.len() <= 7 || args[7] != "then"@ {
            Parsed::Failed(default_message())
        } else {
            match criterion_spec(args[4], args[5], args[6], code) {
                Err(m) => Parsed::Failed(m),
                Ok(c) => if args.len() <= 8 {
                    Parsed::Failed(default_message())
                } else {
                    match actions_of(split_seq(args[8], '+')) {
                        None => Parsed::Failed(default_message()),
                        Some(actions) => {
                            let no_delay = args.len() > 9 && args[9] == "nodelay"@;
                            match expiry_spec(args, if no_delay { 10 } else { 9 }, now) {
                                Err(m) => Parsed::Failed(m),
                                Ok(expiry) => Parsed::AddRule(
                                    RuleDraft {
                                        name: args[2],
                                        criterion: c,
                                        actions,
                                        no_delay,
                                        susp_ip: susp,
                                        expiry,
                                        created: now as int,
                                    },
                                ),
                            }
                        },
                    }
                },
            }
        }
    }
}

/// The meaning of a one-argument `signup rules` command.
pub open spec fn named_spec(args: Seq<Seq<char>>, make: spec_fn(Seq<char>) -> Parsed) -> Parsed {
    if args.len() > 2 {
        make(args[2])
    } else {
        Parsed::Failed(default_message())
    }
}

/// The meaning of a `signup ...` command.
pub open spec fn signup_spec(args: Seq<Seq<char>>, code: Seq<char>, now: i64) -> Parsed {
    if args.len() == 0 {
        Parsed::Failed(default_message())
    } else if args[0] != "rules"@ {
        if args[0] == "seen"@ && args.len() > 1 {
            Parsed::Seen(args[1])
        } else {
            Parsed::Failed(default_message())
        }
    } else if args.len() < 2 {
        Parsed::Failed(default_message())
    } else {
        let sub = args[1];
        if sub == "add"@ {
            add_spec(args, code, now)
        } else if sub == "show"@ {
            named_spec(args, |n: Seq<char>| Parsed::Show(n))
        } else if sub == "remove"@ {
            named_spec(args, |n: Seq<char>| Parsed::Remove(n))
        } else if sub == "disable-re"@ {
            named_spec(args, |n: Seq<char>| Parsed::DisableRe(n))
        } else if sub == "enable-re"@ {
            named_spec(args, |n: Seq<char>| Parsed::EnableRe(n))
        } else if sub == "renew"@ {
            if args.len() <= 2 {
                Parsed::Failed("Please provide a rule name"@)
            } else if args.len() <= 3 {
                Parsed::Failed("Please provide a new expiry"@)
            } else {
                match duration_ms(args[3]) {
                    Some(ms) => Parsed::Renew(args[2], later(now, ms)),
                    None => Parsed::Failed(duration_message()),
                }
            }
        } else if sub == "list"@ {
            Parsed::List
        } else if sub == "test"@ {
            Parsed::Test(code)
        } else {
            Parsed::Failed(default_message())
        }
    }
}

/// The meaning of a command addressed to the daemon at `now`.
pub open spec fn command_spec(cmd: Seq<char>, now: i64) -> Parsed {
    let words = split_seq(cmd, ' ');
    if words[0] == "status"@ {
        Parsed::Status
    } else if words[0] == "signup"@ {
        signup_spec(args_of(cmd), code_of(cmd), now)
    } else if words[0] == "namechk"@ {
        if words.len() > 1 {
            Parsed::NameCheck(words[1])
        } else {
            Parsed::Failed("Please provide a username"@)
        }
    } else if words[0] == "seen"@ {
        if words.len() > 1 {
            Parsed::Seen(words[1])
        } else {
            Parsed::Failed("Please provide a username"@)
        }
    } else {
        Parsed::Failed(default_message())
    }
}

fn word_is(w: &String, lit: &str) -> (r: bool)
    ensures
        r == (w@ == lit@),
{
    same_text(w.as_str(), lit)
}

/// The pattern of a regular-expression criterion, made case-insensitive
/// unless it already is; refused where it does not compile.
pub fn value_to_regex(v: &str) -> (r: Result<String, ParseError>)
    ensures
        match r {
            Ok(p) => p@ == insensitive(v@) && regex_compiles(p@),
            Err(e) => e.message@ == "Invalid regex"@ && !regex_compiles(insensitive(v@)),
        },
{
    let p = if starts_with(v, "(?i)") {
        string_from(v)
    } else {
        let mut p = string_from("(?i)");
        push_str(&mut p, v);
        p
    };
    if compiles(p.as_str()) {
        Ok(p)
    } else {
        Err(parse_error(Some("Invalid regex")))
    }
}

fn later_by(now: i64, ms: i64) -> (r: i64)
    requires
        ms >= 0,
    ensures
        r as int == later(now, ms as int),
{
    if (now as i128) + (ms as i128) > (i64::MAX as i128) {
        i64::MAX
    } else {
        now + ms
    }
}

/// The length of a duration such as `14d` or `2w`, in milliseconds.
pub fn parse_expiry_duration(s: &str) -> (r: Result<i64, ParseError>)
    ensures
        match duration_ms(s@) {
            Some(ms) => r matches Ok(v) && v as int == ms,
            None => r matches Err(e) && e.message@ == duration_message(),
        },
        r matches Ok(v) ==> v >= 0,
{
    let cs = crate::text::chars_of(s);
    if cs.len() == 0 {
        return Err(parse_error(Some("Invalid expiry date format. Example: `14d`. Supported: `d` (day), `w` (week).")));
    }
    let step = cs[cs.len() - 1];
    let amount_text = crate::text::string_of_range(&cs, 0, cs.len() - 1);
    assert(amount_text@ =~= s@.drop_last());
    let amount = parse_unsigned(amount_text.as_str(), 0xffff_ffff);
    match amount {
        Some(n) => {
            if n == 0 {
                Err(parse_error(Some("Invalid expiry date format. Example: `14d`. Supported: `d` (day), `w` (week).")))
            } else if step == 'd' {
                Ok((n as i64) * DAY_MS)
            } else if step == 'w' {
                Ok((n as i64) * 7 * DAY_MS)
            } else {
                Err(parse_error(Some("Invalid expiry date format. Example: `14d`. Supported: `d` (day), `w` (week).")))
            }
        },
        None => Err(parse_error(Some("Invalid expiry date format. Example: `14d`. Supported: `d` (day), `w` (week).")))
    }
}

fn parse_criterion(element: &String, check: &String, value: &String, code: &String) -> (r: Result<Criterion, ParseError>)
    ensures
        match criterion_spec(element@, check@, value@, code@) {
            Ok(c) => r matches Ok(x) && criterion_draft(x) == c,
            Err(m) => r matches Err(e) && e.message@ == m,
        },
{
    if word_is(element, "ip") {
        if word_is(check, "equals") {
            Ok(Criterion::IpMatch(Ip(value.clone())))
        } else {
            Err(parse_error(None))
        }
    } else if word_is(element, "print") {
        Err(parse_error(Some("Use lichess print ban instead")))
    } else if word_is(element, "email") || word_is(element, "username") {
        let email = word_is(element, "email");
        if word_is(check, "contains") {
            if email {
                Ok(Criterion::EmailContains(value.clone()))
            } else {
                Ok(Criterion::UsernameContains(value.clone()))
            }
        } else if word_is(check, "regex") {
            match value_to_regex(value.as_str()) {
                Ok(p) => if email {
                    Ok(Criterion::EmailRegex(p))
                } else {
                    Ok(Criterion::UsernameRegex(p))
                },
                Err(e) => Err(e),
            }
        } else {
            Err(parse_error(None))
        }
    } else if word_is(element, "useragent") {
        if word_is(check, "length-lte") {
            match parse_unsigned(value.as_str(), usize::MAX as u64) {
                Some(n) => Ok(Criterion::UseragentLengthLte(n as usize)),
                None => Err(parse_error(Some("Can't parse int"))),
            }
        } else {
            Err(parse_error(None))
        }
    } else if word_is(element, "lua") {
        Ok(Criterion::Lua(code.clone()))
    } else {
        Err(parse_error(None))
    }
}

fn action_named(w: &String) -> (r: Option<Action>)
    ensures
        r == action_of(w@),
{
    if word_is(w, "shadowban") {
        Some(Action::Shadowban)
    } else if word_is(w, "engine") {
        Some(Action::EngineMark)
    } else if word_is(w, "boost") {
        Some(Action::BoostMark)
    } else if word_is(w, "ipban") {
        Some(Action::IpBan)
    } else if word_is(w, "close") {
        Some(Action::Close)
    } else if word_is(w, "alt") {
        Some(Action::Alt)
    } else if word_is(w, "panic") {
        Some(Action::EnableChatPanic)
    } else if word_is(w, "notify") {
        Some(Action::NotifyZulip)
    } else {
        None
    }
}

fn parse_actions(word: &String) -> (r: Option<Vec<Action>>)
    ensures
        match actions_of(split_seq(word@, '+')) {
            Some(a) => r matches Some(v) && v@ == a,
            None => r is None,
        },
{
    let pieces = split(word.as_str(), '+');
    let ghost ws = split_seq(word@, '+');
    let mut out: Vec<Action> = Vec::new();
    let mut i: usize = 0;
    while i < pieces.len()
        invariant
            ws == split_seq(word@, '+'),
            views(pieces@) == ws,
            i <= pieces@.len(),
            actions_of(ws.subrange(0, i as int)) == Some(out@),
        decreases pieces@.len() - i,
    {
        assert(ws.subrange(0, i + 1).drop_last() =~= ws.subrange(0, i as int));
        assert(ws[i as int] == pieces@[i as int]@);
        match action_named(&pieces[i]) {
            Some(a) => {
                out.push(a);
            },
            None => {
                proof {
                    assert(ws.subrange(0, i + 1).last() == ws[i as int]);
                    assert(actions_of(ws.subrange(0, i + 1)) is None);
                    lemma_actions_prefix(ws, i as int + 1);
                }
                return None;
            },
        }
        i += 1;
    }
    assert(ws.subrange(0, i as int) =~= ws);
    Some(out)
}

proof fn lemma_actions_prefix(ws: Seq<Seq<char>>, k: int)
    requires
        0 <= k <= ws.len(),
        actions_of(ws.subrange(0, k)) is None,
    ensures
        actions_of(ws) is None,
    decreases ws.len() - k,
{
    if k < ws.len() {
        assert(ws.subrange(0, k + 1).drop_last() =~= ws.subrange(0, k));
        lemma_actions_prefix(ws, k + 1);
    } else {
        assert(ws.subrange(0, k) =~= ws);
    }
}

fn parse_expiry(args: &Vec<String>, k: usize, now: i64) -> (r: Result<Option<i64>, ParseError>)
    requires
        k <= 10,
    ensures
        match expiry_spec(views(args@), k as int, now) {
            Ok(e) => r matches Ok(x) && match (x, e) {
                (Some(a), Some(b)) => a as int == b,
                (None, None) => true,
                _ => false,
            },
            Err(m) => r matches Err(e) && e.message@ == m,
        },
{
    if k < args.len() && word_is(&args[k], "noexpiry") {
        Ok(None)
    } else if k < args.len() && word_is(&args[k], "expiry") {
        if k + 1 < args.len() {
            match parse_expiry_duration(args[k + 1].as_str()) {
                Ok(ms) => Ok(Some(later_by(now, ms))),
                Err(e) => Err(e),
            }
        } else {
            Err(parse_error(Some("Invalid expiry date format. Example: `14d`. Supported: `d` (day), `w` (week).")))
        }
    } else {
        Ok(Some(later_by(now, 182 * DAY_MS)))
    }
}

fn handle_add_command(args: &Vec<String>, code: &String, now: i64) -> (r: Result<Command, ParseError>)
    ensures
        parsed_view(r) == add_spec(views(args@), code@, now),
{
    let ghost a = views(args@);
    if args.len() <= 3 {
        return Err(parse_error(None));
    }
    let susp_ip = word_is(&args[3], "if_susp_ip") || word_is(&args[3], "if_ip_susp");
    if !(word_is(&args[3], "if") || susp_ip) || args.len() <= 7 || !word_is(&args[7], "then") {
        return Err(parse_error(None));
    }
    let criterion = match parse_criterion(&args[4], &args[5], &args[6], code) {
        Ok(c) => c,
        Err(e) => {
            return Err(e);
        },
    };
    if args.len() <= 8 {
        return Err(parse_error(None));
    }
    let actions = match parse_actions(&args[8]) {
        Some(v) => v,
        None => {
            return Err(parse_error(None));
        },
    };
    let no_delay = args.len() > 9 && word_is(&args[9], "nodelay");
    let expiry = match parse_expiry(args, if no_delay { 10 } else { 9 }, now) {
        Ok(e) => e,
        Err(e) => {
            return Err(e);
        },
    };
    let rule = Rule {
        name: args[2].clone(),
        criterion,
        actions,
        match_count: 0,
        most_recent_caught: Vec::new(),
        no_delay,
        enabled: true,
        susp_ip,
        expiry,
        exp_notification: 0,
        creation_date: now,
        latest_match_date: None,
    };
    Ok(Command::Dispatch(Event::InternalAddRule { rule }))
}

fn handle_signup_command(command: &str, now: i64) -> (r: Result<Command, ParseError>)
    ensures
        parsed_view(r) == signup_spec(args_of(command@), code_of(command@), now),
{
    let mut first_split = split(command, '`');
    let ghost bs = split_seq(command@, '`');
    let mut code = String::new();
    if first_split.len() > 2 {
        code = first_split[1].clone();
        let t0 = trim(first_split[0].as_str());
        first_split[0] = t0;
        first_split[1] = string_from("$ $");
        let t2 = trim(first_split[2].as_str());
        first_split[2] = t2;
        assert(views(first_split@) =~= bs.update(0, trim_seq(bs[0])).update(1, "$ $"@).update(2, trim_seq(bs[2])));
    }
    assert(code@ == code_of(command@)) by {
        if bs.len() <= 2 {
            assert(code@ =~= Seq::<char>::empty());
        }
    }
    let joined = join(&first_split, " ");
    let mut args = split(joined.as_str(), ' ');
    args.remove(0);
    let ghost a = views(args@);
    assert(a =~= args_of(command@));
    if args.len() == 0 {
        return Err(parse_error(None));
    }
    if !word_is(&args[0], "rules") {
        if word_is(&args[0], "seen") && args.len() > 1 {
            return Ok(Command::Dispatch(Event::InternalIsRecentlyChecked(args[1].clone())));
        }
        return Err(parse_error(None));
    }
    if args.len() < 2 {
        return Err(parse_error(None));
    }
    let sub = &args[1];
    if word_is(sub, "add") {
        handle_add_command(&args, &code, now)
    } else if word_is(sub, "show") || word_is(sub, "remove") || word_is(sub, "disable-re") || word_is(sub, "enable-re") {
        if args.len() <= 2 {
            return Err(parse_error(None));
        }
        let name = args[2].clone();
        let ev = if word_is(sub, "show") {
            Event::InternalShowRule(name)
        } else if word_is(sub, "remove") {
            Event::InternalRemoveRule(name)
        } else if word_is(sub, "disable-re") {
            Event::InternalDisableRules(name)
        } else {
            Event::InternalEnableRules(name)
        };
        Ok(Command::Dispatch(ev))
    } else if word_is(sub, "renew") {
        if args.len() <= 2 {
            return Err(parse_error(Some("Please provide a rule name")));
        }
        if args.len() <= 3 {
            return Err(parse_error(Some("Please provide a new expiry")));
        }
        match parse_expiry_duration(args[3].as_str()) {
            Ok(ms) => Ok(Command::Dispatch(Event::InternalRenewRule { rule: args[2].clone(), new_expiry: later_by(now, ms) })),
            Err(e) => Err(e),
        }
    } else if word_is(sub, "list") {
        Ok(Command::Dispatch(Event::InternalListRules))
    } else if word_is(sub, "test") {
        Ok(Command::TestUser(code))
    } else {
        Err(parse_error(None))
    }
}

fn handle_status_command() -> (r: Result<Command, ParseError>)
    ensures
        parsed_view(r) == Parsed::Status,
{
    Ok(Command::Dispatch(Event::InternalZulipStatusCommand))
}

fn handle_namechk_command(words: &Vec<String>) -> (r: Result<Command, ParseError>)
    ensures
        parsed_view(r) == if words@.len() > 1 {
            Parsed::NameCheck(words@[1]@)
        } else {
            Parsed::Failed("Please provide a username"@)
        },
{
    if words.len() <= 1 {
        return Err(parse_error(Some("Please provide a username")));
    }
    let user = User {
        username: Username(words[1].clone()),
        email: Email(string_from("qwe@asd.zxc")),
        ip: Ip(string_from("127.0.0.1")),
        user_agent: None,
        finger_print: None,
        susp_ip: false,
        geoip: None,
        device: None,
    };
    Ok(Command::Dispatch(Event::InternalHypotheticalSignup(user)))
}

/// Reads a command addressed to the daemon at `now`: what it asks for, or
/// why it could not be understood.
pub fn handle_command(command: String, now: i64) -> (r: Result<Command, ParseError>)
    ensures
        parsed_view(r) == command_spec(command@, now),
{
    let words = split(command.as_str(), ' ');
    assert(views(words@)[0] == words@[0]@);
    if word_is(&words[0], "status") {
        handle_status_command()
    } else if word_is(&words[0], "signup") {
        handle_signup_command(command.as_str(), now)
    } else if word_is(&words[0], "namechk") {
        proof {
            if words@.len() > 1 {
                assert(views(words@)[1] == words@[1]@);
            }
        }
        handle_namechk_command(&words)
    } else if word_is(&words[0], "seen") {
        if words.len() <= 1 {
            return Err(parse_error(Some("Please provide a username")));
        }
        assert(views(words@)[1] == words@[1]@);
        Ok(Command::Dispatch(Event::InternalIsRecentlyChecked(words[1].clone())))
    } else {
        Err(parse_error(None))
    }
}

} // verus!
