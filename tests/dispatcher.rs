use signup_watch::clock::{MAX_ACTION_DELAY_MS, MIN_ACTION_DELAY_MS};
use signup_watch::event::{Email, Event, Ip, User, UserAgent, Username};
use signup_watch::eventhandler::{Channel, Dispatcher, Effect};
use signup_watch::signup::rules::{
    Action, Criterion, Rule, RuleStoreError, ScriptError, SignupRulesManager, DAY_MS,
};
use signup_watch::zulip::command::{handle_command, Command};

const NOW: i64 = 1_700_000_000_000;

fn user(name: &str, ip: &str, susp_ip: bool) -> User {
    User {
        username: Username(name.to_string()),
        email: Email(format!("{}@example.com", name)),
        ip: Ip(ip.to_string()),
        user_agent: Some(UserAgent("Mozilla/5.0".to_string())),
        finger_print: None,
        susp_ip,
        geoip: None,
        device: None,
    }
}

fn dispatcher() -> Dispatcher {
    let m = SignupRulesManager::new("rules.json".to_string(), vec![]).ok().unwrap();
    Dispatcher::new(m, NOW)
}

fn run(d: &mut Dispatcher, cmd: &str) -> Vec<Effect> {
    match handle_command(cmd.to_string(), NOW) {
        Ok(Command::Dispatch(ev)) => d.handle_event(ev, NOW, 50_000, &vec![]),
        Ok(Command::TestUser(_)) => panic!("unexpected dry run"),
        Err(e) => panic!("command refused: {}", e.message),
    }
}

fn signup(d: &mut Dispatcher, u: User, delay: u64) -> Vec<Effect> {
    d.handle_event(Event::Signup(u), NOW, delay, &vec![])
}

fn mod_requests(effects: &[Effect]) -> Vec<(String, u64)> {
    effects
        .iter()
        .filter_map(|e| match e {
            Effect::ModRequest { path, delay_ms } => Some((path.clone(), *delay_ms)),
            _ => None,
        })
        .collect()
}

fn posts(effects: &[Effect], channel: Channel) -> Vec<String> {
    effects
        .iter()
        .filter_map(|e| match e {
            Effect::Post { channel: c, text } if *c == channel => Some(text.clone()),
            _ => None,
        })
        .collect()
}

fn rule_named<'a>(d: &'a Dispatcher, name: &str) -> &'a Rule {
    d.rule_manager.find_rule(name.to_string()).unwrap()
}

#[test]
fn disabled_rule_does_not_fire() {
    let mut d = dispatcher();
    run(&mut d, "signup rules add r1 if ip equals 1.2.3.4 then close");
    let effects = run(&mut d, "signup rules disable-re ^r1$");
    assert_eq!(posts(&effects, Channel::Main), vec!["1 rules disabled.".to_string()]);
    let effects = signup(&mut d, user("bob", "1.2.3.4", false), 50_000);
    assert!(mod_requests(&effects).is_empty());
    assert!(posts(&effects, Channel::Notify).is_empty());
    assert!(posts(&effects, Channel::Main).is_empty());
}

#[test]
fn susp_ip_gating() {
    let mut d = dispatcher();
    run(&mut d, "signup rules add r2 if_susp_ip ip equals 5.6.7.8 then notify");
    let effects = signup(&mut d, user("carol", "5.6.7.8", false), 50_000);
    assert!(posts(&effects, Channel::Notify).is_empty());
    let effects = signup(&mut d, user("carol", "5.6.7.8", true), 50_000);
    assert_eq!(
        posts(&effects, Channel::Notify),
        vec!["Rule r2 match: https://lichess.org/@/carol".to_string()]
    );
    // a rule whose only action is the notification posts no summary
    assert!(posts(&effects, Channel::Main).is_empty());
    assert!(mod_requests(&effects).is_empty());
}

#[test]
fn idempotent_caught() {
    let mut d = dispatcher();
    run(&mut d, "signup rules add r3 if ip equals 9.9.9.9 then close");
    let first = signup(&mut d, user("Alice", "9.9.9.9", false), 50_000);
    assert!(first.iter().any(|e| matches!(e, Effect::Persist)));
    let second = signup(&mut d, user("Alice", "9.9.9.9", false), 50_000);
    assert!(!second.iter().any(|e| matches!(e, Effect::Persist)));
    let r3 = rule_named(&d, "r3");
    assert_eq!(r3.match_count, 1);
    assert_eq!(r3.most_recent_caught, vec!["Alice".to_string()]);
    assert_eq!(r3.latest_match_date, Some(NOW));
}

#[test]
fn action_delay_bounds() {
    for delay in [MIN_ACTION_DELAY_MS, 64_321, MAX_ACTION_DELAY_MS - 1] {
        let mut d = dispatcher();
        run(&mut d, "signup rules add r4 if ip equals 4.4.4.4 then close");
        let effects = signup(&mut d, user("dave", "4.4.4.4", false), delay);
        let reqs = mod_requests(&effects);
        assert_eq!(reqs.len(), 1);
        assert_eq!(reqs[0].0, "/mod/dave/close");
        assert_eq!(reqs[0].1, delay + 1_500);
        assert!(reqs[0].1 >= 31_500 && reqs[0].1 <= 101_500);
    }
}

#[test]
fn delay_is_shared_and_skipped_with_nodelay() {
    let mut d = dispatcher();
    run(&mut d, "signup rules add r5 if ip equals 4.4.4.4 then engine+close");
    run(&mut d, "signup rules add r6 if ip equals 4.4.4.4 then ipban nodelay");
    let reqs = mod_requests(&signup(&mut d, user("erin", "4.4.4.4", false), 40_000));
    assert_eq!(
        reqs,
        vec![
            ("/mod/erin/engine/true".to_string(), 40_000),
            ("/mod/erin/close".to_string(), 41_500),
            ("/mod/erin/ban/true".to_string(), 0),
        ]
    );
}

#[test]
fn hypothetical_does_not_mutate() {
    let mut d = dispatcher();
    run(&mut d, "signup rules add r3 if ip equals 9.9.9.9 then close");
    let cmd = "signup rules test `{\"username\":\"zed\",\"email\":\"z@z.z\",\"ip\":\"9.9.9.9\"}`";
    let json = match handle_command(cmd.to_string(), NOW) {
        Ok(Command::TestUser(j)) => j,
        _ => panic!("expected a dry run"),
    };
    assert_eq!(json, "{\"username\":\"zed\",\"email\":\"z@z.z\",\"ip\":\"9.9.9.9\"}");
    let effects = d.handle_event(
        Event::InternalHypotheticalSignup(user("zed", "9.9.9.9", false)),
        NOW,
        50_000,
        &vec![],
    );
    assert_eq!(
        posts(&effects, Channel::Main),
        vec!["Rule r3 would take these actions: [Close]".to_string()]
    );
    assert!(mod_requests(&effects).is_empty());
    assert!(!effects.iter().any(|e| matches!(e, Effect::Persist)));
    assert_eq!(rule_named(&d, "r3").match_count, 0);
}

fn expiring_rule(name: &str, expiry: i64, exp_notification: u8) -> Rule {
    Rule {
        name: name.to_string(),
        criterion: Criterion::IpMatch(Ip("1.1.1.1".to_string())),
        actions: vec![Action::Close],
        match_count: 0,
        most_recent_caught: vec![],
        no_delay: false,
        enabled: true,
        susp_ip: false,
        expiry: Some(expiry),
        exp_notification,
        creation_date: 0,
        latest_match_date: None,
    }
}

#[test]
fn expiry_auto_removal() {
    let m = SignupRulesManager::new(
        "rules.json".to_string(),
        vec![expiring_rule("old", NOW - 4 * DAY_MS, 2), expiring_rule("keep", NOW + 30 * DAY_MS, 0)],
    )
    .ok()
    .unwrap();
    let mut d = Dispatcher::new(m, NOW);
    let effects = d.handle_event(Event::InternalCheckRulesExpiry, NOW, 50_000, &vec![]);
    assert!(posts(&effects, Channel::Notify).is_empty());
    assert!(matches!(effects.last(), Some(Effect::Persist)));
    let names: Vec<String> = d.rule_manager.rules().iter().map(|r| r.name.clone()).collect();
    assert_eq!(names, vec!["keep".to_string()]);
}

#[test]
fn expiry_notices_come_in_order() {
    let m = SignupRulesManager::new(
        "rules.json".to_string(),
        vec![expiring_rule("soon", NOW + DAY_MS / 2, 0), expiring_rule("past", NOW - DAY_MS, 1)],
    )
    .ok()
    .unwrap();
    let mut d = Dispatcher::new(m, NOW);
    let effects = d.handle_event(Event::InternalCheckRulesExpiry, NOW, 50_000, &vec![]);
    assert_eq!(
        posts(&effects, Channel::Notify),
        vec![
            "Notice: rule `soon` is expiring in less than a day".to_string(),
            "Notice: rule `past` has expired".to_string(),
        ]
    );
    assert_eq!(rule_named(&d, "soon").exp_notification, 1);
    assert_eq!(rule_named(&d, "past").exp_notification, 2);
    let again = d.handle_event(Event::InternalCheckRulesExpiry, NOW, 50_000, &vec![]);
    assert!(posts(&again, Channel::Notify).is_empty());
}

#[test]
fn add_show_remove_and_list() {
    let mut d = dispatcher();
    let effects = run(&mut d, "signup rules add r7 if username contains bad then shadowban+notify nodelay noexpiry");
    assert!(matches!(effects.first(), Some(Effect::Persist)));
    assert_eq!(posts(&effects, Channel::Main), vec!["Rule added!".to_string()]);
    let effects = run(&mut d, "signup rules add r7 if ip equals 1.1.1.1 then close");
    assert_eq!(
        posts(&effects, Channel::Main),
        vec!["Error on adding rule: Already a rule found with that name.".to_string()]
    );
    let effects = run(&mut d, "signup rules show r7");
    assert_eq!(
        posts(&effects, Channel::Main),
        vec!["Criterion: Username contains (case-insensitive) `bad`.\nActions: [Shadowban, NotifyZulip]. No delay"
            .to_string()]
    );
    run(&mut d, "signup rules add r8 if ip equals 1.1.1.1 then close");
    run(&mut d, "signup rules disable-re r8");
    let effects = run(&mut d, "signup rules list");
    assert_eq!(posts(&effects, Channel::Main), vec!["Current rules: r7, (r8)".to_string()]);
    let effects = run(&mut d, "signup rules remove r7");
    assert_eq!(posts(&effects, Channel::Main), vec!["Rule removed!".to_string()]);
    let effects = run(&mut d, "signup rules remove r7");
    assert_eq!(posts(&effects, Channel::Main), vec!["No such rule found.".to_string()]);
    let effects = run(&mut d, "signup rules show r7");
    assert_eq!(posts(&effects, Channel::Main), vec!["No such rule found.".to_string()]);
}

#[test]
fn show_mentions_expiry_date() {
    let mut d = dispatcher();
    run(&mut d, "signup rules add r9 if ip equals 1.1.1.1 then alt");
    let effects = run(&mut d, "signup rules show r9");
    assert_eq!(
        posts(&effects, Channel::Main),
        vec!["Criterion: IP equals `1.1.1.1`.\nActions: [Alt]. Expires: 2024-05-14 22:13:20 UTC".to_string()]
    );
}

#[test]
fn renew_resets_notification() {
    let m = SignupRulesManager::new("rules.json".to_string(), vec![expiring_rule("r", NOW - DAY_MS, 2)])
        .ok()
        .unwrap();
    let mut d = Dispatcher::new(m, NOW);
    let effects = run(&mut d, "signup rules renew r 2w");
    assert_eq!(posts(&effects, Channel::Main), vec!["Rule renewed!".to_string()]);
    let r = rule_named(&d, "r");
    assert_eq!(r.expiry, Some(NOW + 14 * DAY_MS));
    assert_eq!(r.exp_notification, 0);
    let effects = run(&mut d, "signup rules renew nope 2w");
    assert_eq!(posts(&effects, Channel::Main), vec!["No such rule found.".to_string()]);
}

#[test]
fn disable_then_enable_restores() {
    let mut d = dispatcher();
    run(&mut d, "signup rules add a1 if ip equals 1.1.1.1 then close");
    run(&mut d, "signup rules add a2 if ip equals 1.1.1.2 then close");
    run(&mut d, "signup rules add b1 if ip equals 1.1.1.3 then close");
    let effects = run(&mut d, "signup rules disable-re ^a");
    assert_eq!(posts(&effects, Channel::Main), vec!["2 rules disabled.".to_string()]);
    let effects = run(&mut d, "signup rules enable-re ^a");
    assert_eq!(posts(&effects, Channel::Main), vec!["2 rules enabled.".to_string()]);
    assert!(d.rule_manager.rules().iter().all(|r| r.enabled));
    let effects = run(&mut d, "signup rules enable-re (");
    assert_eq!(
        posts(&effects, Channel::Main),
        vec!["Error on enabling rules: Invalid regex.".to_string()]
    );
}

#[test]
fn summary_lists_recent_matches() {
    let mut d = dispatcher();
    run(&mut d, "signup rules add r10 if email contains EXAMPLE then boost");
    signup(&mut d, user("first", "2.2.2.2", false), 50_000);
    let effects = signup(&mut d, user("second", "2.2.2.2", false), 50_000);
    assert_eq!(
        posts(&effects, Channel::Main),
        vec![
            "Rule r10 match: Email address contains `EXAMPLE` on <https://lichess.org/@/second?mod|second>. 1 previous matches. Recent matches: <https://lichess.org/@/first?mod|first>"
                .to_string()
        ]
    );
}

#[test]
fn notification_is_not_repeated() {
    let mut d = dispatcher();
    run(&mut d, "signup rules add n1 if ip equals 3.3.3.3 then notify");
    run(&mut d, "signup rules add n2 if ip equals 3.3.3.3 then notify");
    let effects = signup(&mut d, user("frank", "3.3.3.3", false), 50_000);
    assert_eq!(posts(&effects, Channel::Notify).len(), 1);
    assert_eq!(d.recently_notified, vec!["frank".to_string()]);
}

#[test]
fn script_verdicts_are_used() {
    let mut d = dispatcher();
    let cmd = "signup rules add s1 if lua `user:ip() == \"7.7.7.7\"` then close";
    run(&mut d, cmd);
    let u = user("gina", "7.7.7.7", false);
    let jobs = d.script_jobs(&u, NOW);
    assert_eq!(jobs, vec![Some("user:ip() == \"7.7.7.7\"".to_string())]);
    let effects = d.handle_event(Event::Signup(u), NOW, 50_000, &vec![Ok(true)]);
    assert_eq!(mod_requests(&effects).len(), 1);
    let effects = d.handle_event(
        Event::Signup(user("hank", "7.7.7.7", false)),
        NOW,
        50_000,
        &vec![Err(ScriptError { message: "boom".to_string() })],
    );
    assert_eq!(
        posts(&effects, Channel::Main),
        vec!["Error on `s1` for user `hank` (probably in Lua snippet): `boom`".to_string()]
    );
    let effects = d.handle_event(Event::Signup(user("ivy", "7.7.7.7", false)), NOW, 50_000, &vec![]);
    assert_eq!(
        posts(&effects, Channel::Main),
        vec!["Error on `s1` for user `ivy` (probably in Lua snippet): `Script was not evaluated`".to_string()]
    );
}

#[test]
fn seen_and_status() {
    let mut d = dispatcher();
    signup(&mut d, user("JoE", "1.1.1.1", false), 50_000);
    let effects = run(&mut d, "signup seen joe");
    match &effects[..] {
        [Effect::ReportSeen { snapshots }] => {
            assert_eq!(snapshots.len(), 1);
            assert_eq!(snapshots[0].username.0, "JoE");
        }
        _ => panic!("expected a report"),
    }
    let effects = run(&mut d, "signup seen nobody");
    assert_eq!(
        posts(&effects, Channel::Main),
        vec!["No, that user has not been seen in the latest 10K sign-ins.".to_string()]
    );
    d.handle_event(Event::InternalStreamEventReceived, 0, 50_000, &vec![]);
    let effects = run(&mut d, "status");
    assert_eq!(
        posts(&effects, Channel::Main),
        vec!["I am alive! Latest event: (UTC) 01/01/1970 00:00:00".to_string()]
    );
}

#[test]
fn recency_buffer_keeps_ten_thousand() {
    let mut d = dispatcher();
    for i in 0..10_001 {
        signup(&mut d, user(&format!("u{}", i), "1.1.1.1", false), 50_000);
    }
    assert_eq!(d.recently_checked.len(), 10_000);
    assert!(!d.recently_checked.contains(&"u0".to_string()));
    assert!(d.recently_checked.contains(&"u1".to_string()));
    assert_eq!(d.recently_checked.snapshots(&"u10000".to_string()).len(), 1);
}

#[test]
fn catalogue_refuses_duplicates_and_malformed_rules() {
    let dup = SignupRulesManager::new(
        "rules.json".to_string(),
        vec![expiring_rule("x", NOW, 0), expiring_rule("x", NOW, 0)],
    );
    assert!(matches!(dup, Err(RuleStoreError::DuplicateName)));
    let bad = SignupRulesManager::new("rules.json".to_string(), vec![expiring_rule("x", NOW, 3)]);
    assert!(matches!(bad, Err(RuleStoreError::MalformedRule)));
    let mut m = SignupRulesManager::new("rules.json".to_string(), vec![]).ok().unwrap();
    assert!(m.add_rule(expiring_rule("y", NOW, 0)).is_ok());
    assert_eq!(m.add_rule(expiring_rule("y", NOW, 0)), Err(RuleStoreError::DuplicateName));
    assert_eq!(m.disable_rules("(".to_string()), Err(RuleStoreError::InvalidPattern));
    assert_eq!(m.caught("zz".to_string(), &Username("a".to_string()), NOW), Err(RuleStoreError::NotFound));
    assert_eq!(m.rules_path(), "rules.json");
}

#[test]
fn caught_keeps_three_recent() {
    let mut m = SignupRulesManager::new("rules.json".to_string(), vec![expiring_rule("c", NOW, 0)])
        .ok()
        .unwrap();
    for name in ["a", "b", "c", "d"] {
        assert_eq!(m.caught("c".to_string(), &Username(name.to_string()), NOW), Ok(true));
    }
    assert_eq!(m.caught("c".to_string(), &Username("d".to_string()), NOW), Ok(false));
    let r = m.find_rule("c".to_string()).unwrap();
    assert_eq!(r.most_recent_caught, vec!["b".to_string(), "c".to_string(), "d".to_string()]);
    assert_eq!(r.match_count, 4);
}

#[test]
fn action_endpoints() {
    let u = Username("bob".to_string());
    assert_eq!(Action::Shadowban.api_endpoint(&u).unwrap(), "/mod/bob/troll/true");
    assert_eq!(Action::EngineMark.api_endpoint(&u).unwrap(), "/mod/bob/engine/true");
    assert_eq!(Action::BoostMark.api_endpoint(&u).unwrap(), "/mod/bob/booster/true");
    assert_eq!(Action::IpBan.api_endpoint(&u).unwrap(), "/mod/bob/ban/true");
    assert_eq!(Action::Close.api_endpoint(&u).unwrap(), "/mod/bob/close");
    assert_eq!(Action::Alt.api_endpoint(&u).unwrap(), "/mod/bob/alt/true");
    assert_eq!(Action::EnableChatPanic.api_endpoint(&u).unwrap(), "/mod/chat-panic");
    assert!(Action::NotifyZulip.api_endpoint(&u).is_none());
}

#[test]
fn top_level_seen_command() {
    let mut d = dispatcher();
    signup(&mut d, user("Alice", "1.1.1.1", false), 50_000);
    let effects = run(&mut d, "seen alice");
    assert!(matches!(&effects[..], [Effect::ReportSeen { snapshots }] if snapshots.len() == 1));
    let effects = run(&mut d, "seen bob");
    assert_eq!(
        posts(&effects, Channel::Main),
        vec!["No, that user has not been seen in the latest 10K sign-ins.".to_string()]
    );
    assert!(matches!(handle_command("seen".to_string(), NOW), Err(e) if e.message == "Please provide a username"));
}

#[test]
fn usernames_compare_ignoring_case() {
    let mut d = dispatcher();
    run(&mut d, "signup rules add r11 if ip equals 6.6.6.6 then notify+close");
    let first = signup(&mut d, user("Alice", "6.6.6.6", false), 50_000);
    assert_eq!(posts(&first, Channel::Notify).len(), 1);
    let second = signup(&mut d, user("ALICE", "6.6.6.6", false), 50_000);
    assert!(posts(&second, Channel::Notify).is_empty());
    assert!(!second.iter().any(|e| matches!(e, Effect::Persist)));
    let r = rule_named(&d, "r11");
    assert_eq!(r.match_count, 1);
    assert_eq!(r.most_recent_caught, vec!["Alice".to_string()]);
}

#[test]
fn script_view_placeholders() {
    let mut u = user("kim", "1.1.1.1", false);
    u.user_agent = None;
    assert_eq!(u.script_ua(), "no user agent detected");
    assert_eq!(u.script_fp(), "<NO PRINT>");
    assert_eq!(u.script_country(), "<NO COUNTRY>");
    assert_eq!(u.script_city(), "<NO CITY>");
    assert!(u.script_subdivisions().is_empty());
    assert_eq!(u.script_has_subdivision(&"X".to_string()), None);
    assert_eq!(u.script_device(), "<NO DEVICE>");
    assert_eq!(u.script_os(), "<NO OS>");
    assert_eq!(u.script_client(), "<NO CLIENT>");
    u.geoip = Some(signup_watch::event::GeoipInfo {
        country: Some("FR".to_string()),
        city: None,
        subdivisions: Some(vec!["Brittany".to_string()]),
    });
    assert_eq!(u.script_country(), "FR");
    assert_eq!(u.script_city(), "<NO CITY>");
    assert_eq!(u.script_has_subdivision(&"Brittany".to_string()), Some(true));
    assert_eq!(u.script_subdivisions(), vec!["Brittany".to_string()]);
}
