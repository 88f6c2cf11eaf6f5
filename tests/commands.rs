use signup_watch::event::{DeviceInfo, Email, Event, FingerPrint, Ip, UapClient, User, UserAgent, Username};
use signup_watch::signup::rules::ScriptError;
use signup_watch::text::{join, parse_unsigned, split, trim};
use signup_watch::eventhandler::seen_message;
use signup_watch::eventstream::stream_lines;
use signup_watch::signup::rules::{Action, Criterion, DAY_MS};
use signup_watch::status::{Restart, StatusPing, Supervisor};
use signup_watch::zulip::command::{handle_command, parse_error, parse_expiry_duration, value_to_regex, Command};
use signup_watch::zulip::rtm::{bot_mention, command_text, events_url, next_event_id, register_url};
use signup_watch::zulip::web::{basic_auth_header, message_form_body, messages_url};

const NOW: i64 = 1_000_000;

fn error_of(cmd: &str) -> String {
    match handle_command(cmd.to_string(), NOW) {
        Err(e) => e.message,
        Ok(_) => panic!("command accepted: {}", cmd),
    }
}

fn event_of(cmd: &str) -> Event {
    match handle_command(cmd.to_string(), NOW) {
        Ok(Command::Dispatch(ev)) => ev,
        _ => panic!("command not dispatched: {}", cmd),
    }
}

#[test]
fn add_rule_command_fields() {
    match event_of("signup rules add r1 if_ip_susp email regex ^spam then ipban+alt+panic nodelay expiry 3d") {
        Event::InternalAddRule { rule } => {
            assert_eq!(rule.name, "r1");
            assert!(matches!(rule.criterion, Criterion::EmailRegex(ref p) if p == "(?i)^spam"));
            assert_eq!(rule.actions, vec![Action::IpBan, Action::Alt, Action::EnableChatPanic]);
            assert!(rule.no_delay);
            assert!(rule.susp_ip);
            assert!(rule.enabled);
            assert_eq!(rule.match_count, 0);
            assert_eq!(rule.expiry, Some(NOW + 3 * DAY_MS));
            assert_eq!(rule.creation_date, NOW);
        }
        _ => panic!("expected a new rule"),
    }
}

#[test]
fn add_rule_default_expiry_and_kinds() {
    match event_of("signup rules add r2 if useragent length-lte 12 then close") {
        Event::InternalAddRule { rule } => {
            assert!(matches!(rule.criterion, Criterion::UseragentLengthLte(12)));
            assert_eq!(rule.expiry, Some(NOW + 182 * DAY_MS));
            assert!(!rule.no_delay);
        }
        _ => panic!("expected a new rule"),
    }
    match event_of("signup rules add r3 if username regex (?i)abc then close noexpiry") {
        Event::InternalAddRule { rule } => {
            assert!(matches!(rule.criterion, Criterion::UsernameRegex(ref p) if p == "(?i)abc"));
            assert_eq!(rule.expiry, None);
        }
        _ => panic!("expected a new rule"),
    }
    match event_of("signup rules add r4 if lua `user:country() == \"FR\"` then notify") {
        Event::InternalAddRule { rule } => {
            assert!(matches!(rule.criterion, Criterion::Lua(ref c) if c == "user:country() == \"FR\""));
            assert_eq!(rule.actions, vec![Action::NotifyZulip]);
        }
        _ => panic!("expected a new rule"),
    }
}

#[test]
fn command_errors() {
    assert_eq!(error_of("hello"), "Could not parse user command");
    assert_eq!(error_of("signup rules add r if print equals abc then close"), "Use lichess print ban instead");
    assert_eq!(error_of("signup rules add r if useragent length-lte x then close"), "Can't parse int");
    assert_eq!(error_of("signup rules add r if email regex ( then close"), "Invalid regex");
    assert_eq!(error_of("signup rules add r if ip equals 1.1.1.1 then frobnicate"), "Could not parse user command");
    assert_eq!(error_of("signup rules add r when ip equals 1.1.1.1 then close"), "Could not parse user command");
    assert_eq!(error_of("signup rules renew"), "Please provide a rule name");
    assert_eq!(error_of("signup rules renew r"), "Please provide a new expiry");
    assert_eq!(
        error_of("signup rules renew r 3m"),
        "Invalid expiry date format. Example: `14d`. Supported: `d` (day), `w` (week)."
    );
    assert_eq!(error_of("namechk"), "Please provide a username");
    assert_eq!(error_of("signup rules"), "Could not parse user command");
    assert_eq!(error_of("signup rules show"), "Could not parse user command");
}

#[test]
fn simple_commands() {
    assert!(matches!(event_of("status"), Event::InternalZulipStatusCommand));
    assert!(matches!(event_of("signup rules list"), Event::InternalListRules));
    assert!(matches!(event_of("signup seen Bob"), Event::InternalIsRecentlyChecked(ref n) if n == "Bob"));
    assert!(matches!(event_of("signup rules show x"), Event::InternalShowRule(ref n) if n == "x"));
    assert!(matches!(event_of("signup rules remove x"), Event::InternalRemoveRule(ref n) if n == "x"));
    assert!(matches!(event_of("signup rules disable-re ^x"), Event::InternalDisableRules(ref n) if n == "^x"));
    assert!(matches!(event_of("signup rules enable-re ^x"), Event::InternalEnableRules(ref n) if n == "^x"));
    assert!(matches!(event_of("signup rules renew x 1w"),
        Event::InternalRenewRule { ref rule, new_expiry } if rule == "x" && new_expiry == NOW + 7 * DAY_MS));
    match event_of("namechk Someone") {
        Event::InternalHypotheticalSignup(u) => {
            assert_eq!(u.username.0, "Someone");
            assert_eq!(u.email.0, "qwe@asd.zxc");
            assert_eq!(u.ip.0, "127.0.0.1");
            assert!(!u.susp_ip);
        }
        _ => panic!("expected a dry run"),
    }
}

#[test]
fn durations() {
    assert_eq!(parse_expiry_duration("14d").ok(), Some(14 * 86_400_000));
    assert_eq!(parse_expiry_duration("2w").ok(), Some(2 * 604_800_000));
    assert_eq!(parse_expiry_duration("+1d").ok(), Some(86_400_000));
    assert!(parse_expiry_duration("0d").is_err());
    assert!(parse_expiry_duration("d").is_err());
    assert!(parse_expiry_duration("").is_err());
    assert!(parse_expiry_duration("5x").is_err());
    assert!(parse_expiry_duration("99999999999d").is_err());
}

#[test]
fn regex_values_become_insensitive() {
    assert_eq!(value_to_regex("abc").ok(), Some("(?i)abc".to_string()));
    assert_eq!(value_to_regex("(?i)abc").ok(), Some("(?i)abc".to_string()));
    assert_eq!(value_to_regex("[").err().map(|e| e.message), Some("Invalid regex".to_string()));
    assert_eq!(parse_error(None).description(), "Could not parse user command");
}

#[test]
fn device_of_bot_and_mobile() {
    let d = DeviceInfo::lichess_bot("lichess-bot/1.2.0 (+https://x)").unwrap();
    assert_eq!((d.device.as_str(), d.os.as_str(), d.client.as_str()), ("Computer", "Other", "lichess-bot 1.2.0"));
    assert!(DeviceInfo::lichess_bot("Mozilla/5.0").is_none());
    let d = DeviceInfo::lichess_mob(
        "Lichess Mobile/0.9.1 (123) as:anon sri:xyz os:Android/14 dev:Pixel 8",
    )
    .unwrap();
    assert_eq!(d.client, "Lichess Mobile 0.9.1");
    assert_eq!(d.os, "Android 14");
    assert_eq!(d.device, "Pixel 8");
    let d = DeviceInfo::lichess_mob_trim("LM/0.9.1 iOS/17.2 iPhone 15").unwrap();
    assert_eq!(d.client, "Lichess Mobile 0.9.1");
    assert_eq!(d.os, "iOS 17.2");
    assert_eq!(d.device, "iPhone 15");
    assert!(DeviceInfo::lichess_mob_trim("Mozilla/5.0").is_none());
}

#[test]
fn device_of_general_parser() {
    let d = DeviceInfo::from_uap_client(UapClient {
        device_family: "Other".to_string(),
        os_family: "Windows".to_string(),
        os_major: Some("10".to_string()),
        agent_family: "Firefox".to_string(),
        agent_major: None,
    });
    assert_eq!((d.device.as_str(), d.os.as_str(), d.client.as_str()), ("Computer", "Windows 10", "Firefox"));
}

#[test]
fn chat_framing() {
    assert_eq!(message_form_body("mod log", "a/b", "x&y"), "type=stream&to=mod%20log&subject=a%2Fb&content=x%26y");
    assert_eq!(basic_auth_header("id", "tok"), "Basic aWQ6dG9r");
    assert_eq!(messages_url("chat.example"), "https://chat.example/api/v1/messages");
    assert_eq!(register_url("chat.example"), "https://chat.example/api/v1/register");
    assert_eq!(events_url("chat.example", "q1", -1), "https://chat.example/api/v1/events?queue_id=q1&last_event_id=-1");
    let m = bot_mention("bot");
    assert_eq!(m, "@**bot** ");
    let s = Some("mods".to_string());
    let t = Some("cmds".to_string());
    assert_eq!(command_text(&m, "@**bot** status", &s, &t, "mods", "cmds"), Some("status".to_string()));
    assert_eq!(command_text(&m, "@**bot** status", &s, &t, "mods", "other"), None);
    assert_eq!(command_text(&m, "hello", &s, &t, "mods", "cmds"), None);
    assert_eq!(next_event_id(-1, &vec![Some(3), None, Some(7), None]), 7);
    assert_eq!(next_event_id(-1, &vec![None]), -1);
}

#[test]
fn stream_chunk_lines() {
    let lines = stream_lines("{\"t\":\"signup\"}\n  \n\n{\"a\":1}");
    assert_eq!(lines, vec!["{\"t\":\"signup\"}".to_string(), "{\"a\":1}".to_string()]);
    assert!(stream_lines("").is_empty());
}

#[test]
fn seen_report_text() {
    let m = seen_message(&vec!["{}".to_string(), "{\"a\":1}".to_string()]);
    assert_eq!(m, "Yes, that user has been seen in the latest 10K sign-ins. Seen 2 times:\n`{}`\n`{\"a\":1}`");
}

#[test]
fn supervisor_restarts_silent_connections() {
    let mut s = Supervisor::new(0);
    assert_eq!(s.on_ping(StatusPing::EnsureAliveConnectionLichess, 90_000), Restart::Nothing);
    assert_eq!(s.on_ping(StatusPing::EnsureAliveConnectionLichess, 90_001), Restart::StreamWatcher);
    assert_eq!(s.latest_stream_event, 90_001);
    assert_eq!(s.on_ping(StatusPing::ZulipPingReceived, 100_000), Restart::Nothing);
    assert_eq!(s.on_ping(StatusPing::EnsureAliveConnectionZulip, 820_000), Restart::Nothing);
    assert_eq!(s.on_ping(StatusPing::EnsureAliveConnectionZulip, 820_001), Restart::ChatConnection);
    assert_eq!(s.latest_zulip_event, 820_001);
    assert_eq!(s.on_ping(StatusPing::StreamEventReceived, 5), Restart::Nothing);
    assert_eq!(s.latest_stream_event, 5);
}

#[test]
fn random_delay_in_range() {
    for _ in 0..100 {
        let d = signup_watch::clock::sample_action_delay();
        assert!((30_000..100_000).contains(&d));
    }
}

#[test]
fn geoip_names_skip_missing_subdivisions() {
    let g = signup_watch::event::GeoipInfo::from_city_names(
        Some("France".to_string()),
        None,
        Some(vec![Some("Brittany".to_string()), None, Some("Finistère".to_string())]),
    );
    assert_eq!(g.country, Some("France".to_string()));
    assert_eq!(g.city, None);
    assert_eq!(g.subdivisions, Some(vec!["Brittany".to_string(), "Finistère".to_string()]));
}

#[test]
fn criteria_decide_on_users() {
    let u = User {
        username: Username("SpamBot".to_string()),
        email: Email("x@Mail.test".to_string()),
        ip: Ip("1.2.3.4".to_string()),
        user_agent: Some(UserAgent("héllo".to_string())),
        finger_print: Some(FingerPrint("abc".to_string())),
        susp_ip: false,
        geoip: None,
        device: None,
    };
    let ok = Ok(false);
    let yes = |c: Criterion| c.take_action(&u, &ok).ok().unwrap();
    assert!(yes(Criterion::PrintMatch(FingerPrint("abc".to_string()))));
    assert!(!yes(Criterion::PrintMatch(FingerPrint("abd".to_string()))));
    assert!(yes(Criterion::UsernameContains("bot".to_string())));
    assert!(yes(Criterion::EmailContains("MAIL".to_string())));
    assert!(yes(Criterion::EmailRegex("(?i)mail\\.test$".to_string())));
    assert!(!yes(Criterion::UsernameRegex("^bot".to_string())));
    assert!(yes(Criterion::UseragentLengthLte(6)));
    assert!(!yes(Criterion::UseragentLengthLte(5)));
    assert!(yes(Criterion::IpMatch(Ip("1.2.3.4".to_string()))));
    let failed: Result<bool, ScriptError> = Err(ScriptError { message: "bad".to_string() });
    assert_eq!(Criterion::Lua("x".to_string()).take_action(&u, &failed).err().map(|e| e.message), Some("bad".to_string()));
    assert_eq!(
        Criterion::EmailRegex("(".to_string()).take_action(&u, &ok).err().map(|e| e.message),
        Some("Invalid regex".to_string())
    );
    assert_eq!(
        Criterion::UseragentLengthLte(3).friendly(),
        "User agent length is less than or equal to 3"
    );
    assert_eq!(Criterion::Lua("x".to_string()).friendly(), "Lua code `x` evaluates to true.");
}

#[test]
fn text_helpers() {
    assert_eq!(split("a  b", ' '), vec!["a".to_string(), "".to_string(), "b".to_string()]);
    assert_eq!(split("", ' '), vec!["".to_string()]);
    assert_eq!(join(&vec!["a".to_string(), "b".to_string()], ", "), "a, b");
    assert_eq!(trim("\t x y \n"), "x y");
    assert_eq!(parse_unsigned("+42", 100), Some(42));
    assert_eq!(parse_unsigned("101", 100), None);
    assert_eq!(parse_unsigned("4a", 100), None);
    assert_eq!(parse_unsigned("+", 100), None);
}
