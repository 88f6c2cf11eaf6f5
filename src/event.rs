//! Signup candidates, their derived device information, and the events that
//! the dispatcher consumes.
use vstd::prelude::*;
use crate::pattern::{captures, compiles, regex_captures, regex_compiles, regex_matches};
use crate::signup::rules::Rule;
use crate::text::{push_str, split, split_seq, starts_with, starts_with_seq, string_from};

verus! {

/// An event for the dispatcher: a signup from the upstream stream, or an
/// internal event raised by an operator command or a timer.
pub enum Event {
    Signup(User),
    InternalHypotheticalSignup(User),
    InternalAddRule { rule: Rule },
    InternalShowRule(String),
    InternalRemoveRule(String),
    InternalDisableRules(String),
    InternalEnableRules(String),
    InternalListRules,
    InternalStreamEventReceived,
    InternalZulipStatusCommand,
    InternalIsRecentlyChecked(String),
    InternalCheckRulesExpiry,
    InternalRenewRule { rule: String, new_expiry: i64 },
}

/// A newly registered account, as the upstream stream describes it.
pub struct User {
    pub username: Username,
    pub email: Email,
    pub ip: Ip,
    pub user_agent: Option<UserAgent>,
    pub finger_print: Option<FingerPrint>,
    pub susp_ip: bool,
    pub geoip: Option<GeoipInfo>,
    pub device: Option<DeviceInfo>,
}

/// Whether a user read without the flag counts as coming from a suspicious
/// address: it does not.
pub fn default_susp_ip() -> (r: bool)
    ensures
        !r,
{
    false
}

/// Where an address is located.
pub struct GeoipInfo {
    pub country: Option<String>,
    pub city: Option<String>,
    pub subdivisions: Option<Vec<String>>,
}

/// The names present among `names`, in order.
pub open spec fn present(names: Seq<Option<String>>) -> Seq<Seq<char>>
    decreases names.len(),
{
    if names.len() == 0 {
        Seq::empty()
    } else {
        let rest = present(names.drop_last());
        match names.last() {
            Some(n) => rest.push(n@),
            None => rest,
        }
    }
}

impl GeoipInfo {
    /// Builds the record from the English names of a location lookup; a
    /// subdivision without an English name is left out.
    pub fn from_city_names(
        country: Option<String>,
        city: Option<String>,
        subdivisions: Option<Vec<Option<String>>>,
    ) -> (r: GeoipInfo)
        ensures
            r.country == country,
            r.city == city,
            subdivisions is None ==> r.subdivisions is None,
            subdivisions matches Some(s) ==> r.subdivisions matches Some(t) && crate::text::views(
                t@,
            ) == present(s@),
    {
        let subs = match subdivisions {
            None => None,
            Some(list) => {
                let mut out: Vec<String> = Vec::new();
                let mut i: usize = 0;
                while i < list.len()
                    invariant
                        i <= list@.len(),
                        crate::text::views(out@) == present(list@.subrange(0, i as int)),
                    decreases list@.len() - i,
                {
                    assert(list@.subrange(0, i + 1).drop_last() =~= list@.subrange(0, i as int));
                    match &list[i] {
                        Some(name) => {
                            out.push(name.clone());
                            assert(crate::text::views(out@) =~= crate::text::views(
                                out@.drop_last(),
                            ).push(name@));
                        },
                        None => {},
                    }
                    i += 1;
                }
                assert(list@.subrange(0, i as int) =~= list@);
                Some(out)
            },
        };
        GeoipInfo { country, city, subdivisions: subs }
    }
}

/// What a user agent says of the device, its operating system and the client.
pub struct DeviceInfo {
    pub device: String,
    pub os: String,
    pub client: String,
}

/// The content of a `DeviceInfo`.
pub struct DeviceView {
    pub device: Seq<char>,
    pub os: Seq<char>,
    pub client: Seq<char>,
}

impl View for DeviceInfo {
    type V = DeviceView;

    open spec fn view(&self) -> DeviceView {
        DeviceView { device: self.device@, os: self.os@, client: self.client@ }
    }
}

/// The views of an optional device record.
pub open spec fn device_views(d: Option<DeviceInfo>) -> Option<DeviceView> {
    match d {
        Some(x) => Some(x@),
        None => None,
    }
}

/// What a general user-agent parser found, as plain values.
pub struct UapClient {
    pub device_family: String,
    pub os_family: String,
    pub os_major: Option<String>,
    pub agent_family: String,
    pub agent_major: Option<String>,
}

/// Pattern of the long user agent of the mobile application.
pub const MOB_UA_PATTERN: &'static str = "(?i)lichess mobile/(\\S+)(?: \\(\\d*\\))? as:(\\S+) sri:(\\S+) os:(Android|iOS)/(\\S+) dev:(.*)";

/// Pattern of the short user agent of the mobile application.
pub const MOB_UA_TRIM_PATTERN: &'static str = "LM/(\\S+) (Android|iOS)/(\\S+) (.*)";

/// The text of group `i`, or `?` where the group took no part.
pub open spec fn group_or_mark(caps: Option<Seq<Option<Seq<char>>>>, i: int) -> Seq<char> {
    match caps {
        Some(gs) => if 0 <= i < gs.len() && gs[i] is Some {
            gs[i]->0
        } else {
            "?"@
        },
        None => "?"@,
    }
}

/// Bot clients identify themselves by this prefix.
pub open spec fn bot_device(ua: Seq<char>) -> Option<DeviceView> {
    if starts_with_seq(ua, "lichess-bot/"@) {
        Some(
            DeviceView {
                device: "Computer"@,
                os: "Other"@,
                client: "lichess-bot "@ + split_seq(ua.subrange(12, ua.len() as int), ' ')[0],
            },
        )
    } else {
        None
    }
}

/// The device read from the groups of a match of one of the mobile patterns:
/// version, operating system name, its version, and the device.
pub open spec fn mobile_device(
    caps: Option<Seq<Option<Seq<char>>>>,
    version: int,
    os_name: int,
    os_version: int,
    device: int,
) -> DeviceView {
    DeviceView {
        device: group_or_mark(caps, device),
        os: group_or_mark(caps, os_name) + " "@ + group_or_mark(caps, os_version),
        client: "Lichess Mobile "@ + group_or_mark(caps, version),
    }
}

/// The device of a long mobile user agent.
pub open spec fn mob_device(ua: Seq<char>) -> Option<DeviceView> {
    if regex_compiles(MOB_UA_PATTERN@) && regex_matches(MOB_UA_PATTERN@, ua) {
        Some(mobile_device(regex_captures(MOB_UA_PATTERN@, ua), 1, 4, 5, 6))
    } else {
        None
    }
}

/// The device of a short mobile user agent.
pub open spec fn mob_trim_device(ua: Seq<char>) -> Option<DeviceView> {
    if regex_compiles(MOB_UA_TRIM_PATTERN@) && regex_matches(MOB_UA_TRIM_PATTERN@, ua) {
        Some(mobile_device(regex_captures(MOB_UA_TRIM_PATTERN@, ua), 1, 2, 3, 4))
    } else {
        None
    }
}

/// `family`, followed by a space and `major` where there is one.
pub open spec fn with_major(family: Seq<char>, major: Option<String>) -> Seq<char> {
    match major {
        Some(m) => family + " "@ + m@,
        None => family,
    }
}

/// The device that a general parser's answer describes.
pub open spec fn uap_device(c: UapClient) -> DeviceView {
    DeviceView {
        device: if c.device_family@ == "Other"@ {
            "Computer"@
        } else {
            c.device_family@
        },
        os: with_major(c.os_family@, c.os_major),
        client: with_major(c.agent_family@, c.agent_major),
    }
}

fn group_text(caps: &Vec<Option<String>>, i: usize) -> (r: String)
    ensures
        r@ == group_or_mark(Some(caps@.map_values(|g: Option<String>| match g {
            Some(s) => Some(s@),
            None => None,
        })), i as int),
{
    if i < caps.len() {
        match &caps[i] {
            Some(s) => s.clone(),
            None => string_from("?"),
        }
    } else {
        string_from("?")
    }
}

fn mobile_from(caps: &Vec<Option<String>>, version: usize, os_name: usize, os_version: usize, device: usize) -> (r: DeviceInfo)
    ensures
        r@ == mobile_device(crate::pattern::capture_views(Some(*caps)), version as int, os_name as int, os_version as int, device as int),
{
    let mut os = group_text(caps, os_name);
    push_str(&mut os, " ");
    let v = group_text(caps, os_version);
    push_str(&mut os, v.as_str());
    let mut client = string_from("Lichess Mobile ");
    let ver = group_text(caps, version);
    push_str(&mut client, ver.as_str());
    DeviceInfo { device: group_text(caps, device), os, client }
}

/// Relies on `uaparser::Parser::parse`: its answer depends on the regular
/// expressions that the parser was loaded with, so nothing is stated of it.
#[verifier::external_body]
fn uap_parse(parser: &uaparser::UserAgentParser, ua: &str) -> (r: UapClient) {
    let c = uaparser::Parser::parse(parser, ua);
    UapClient {
        device_family: c.device.family.to_string(),
        os_family: c.os.family.to_string(),
        os_major: c.os.major.map(|m| m.to_string()),
        agent_family: c.user_agent.family.to_string(),
        agent_major: c.user_agent.major.map(|m| m.to_string()),
    }
}

#[verifier::external_type_specification]
#[verifier::external_body]
pub struct ExUserAgentParser(uaparser::UserAgentParser);

impl DeviceInfo {
    /// The device of a bot client, whose user agent starts with `lichess-bot/`.
    pub fn lichess_bot(ua: &str) -> (r: Option<DeviceInfo>)
        ensures
            device_views(r) == bot_device(ua@),
    {
        if starts_with(ua, "lichess-bot/") {
            proof {
                reveal_strlit("lichess-bot/");
            }
            let cs = crate::text::chars_of(ua);
            let rest = crate::text::string_of_range(&cs, 12, cs.len());
            let words = split(rest.as_str(), ' ');
            let mut client = string_from("lichess-bot ");
            push_str(&mut client, words[0].as_str());
            Some(DeviceInfo { device: string_from("Computer"), os: string_from("Other"), client })
        } else {
            None
        }
    }

    /// The device of the long user agent of the mobile application.
    pub fn lichess_mob(ua: &str) -> (r: Option<DeviceInfo>)
        ensures
            device_views(r) == mob_device(ua@),
    {
        if !compiles(MOB_UA_PATTERN) {
            return None;
        }
        match captures(MOB_UA_PATTERN, ua) {
            Some(caps) => Some(mobile_from(&caps, 1, 4, 5, 6)),
            None => None,
        }
    }

    /// The device of the short user agent of the mobile application.
    pub fn lichess_mob_trim(ua: &str) -> (r: Option<DeviceInfo>)
        ensures
            device_views(r) == mob_trim_device(ua@),
    {
        if !compiles(MOB_UA_TRIM_PATTERN) {
            return None;
        }
        match captures(MOB_UA_TRIM_PATTERN, ua) {
            Some(caps) => Some(mobile_from(&caps, 1, 2, 3, 4)),
            None => None,
        }
    }

    /// The device that a general parser's answer describes; a device family
    /// of `Other` is taken to be a computer.
    pub fn from_uap_client(c: UapClient) -> (r: DeviceInfo)
        ensures
            r@ == uap_device(c),
    {
        let other = string_from("Other");
        let device = if c.device_family == other {
            string_from("Computer")
        } else {
            c.device_family.clone()
        };
        let os = match &c.os_major {
            Some(m) => {
                let mut s = c.os_family.clone();
                push_str(&mut s, " ");
                push_str(&mut s, m.as_str());
                s
            },
            None => c.os_family.clone(),
        };
        let client = match &c.agent_major {
            Some(m) => {
                let mut s = c.agent_family.clone();
                push_str(&mut s, " ");
                push_str(&mut s, m.as_str());
                s
            },
            None => c.agent_family.clone(),
        };
        DeviceInfo { device, os, client }
    }

    /// The device of a user agent: the bot prefix first, then the two mobile
    /// patterns, then the general parser.
    pub fn parse_user_agent(ua: &str, parser: &uaparser::UserAgentParser) -> (r: DeviceInfo)
        ensures
            bot_device(ua@) matches Some(d) ==> r@ == d,
            bot_device(ua@) is None ==> (mob_device(ua@) matches Some(d) ==> r@ == d),
            bot_device(ua@) is None && mob_device(ua@) is None ==> (mob_trim_device(
                ua@,
            ) matches Some(d) ==> r@ == d),
            bot_device(ua@) is None && mob_device(ua@) is None && mob_trim_device(ua@) is None
                ==> exists|c: UapClient| r@ == uap_device(c),
    {
        if let Some(d) = DeviceInfo::lichess_bot(ua) {
            return d;
        }
        if let Some(d) = DeviceInfo::lichess_mob(ua) {
            return d;
        }
        if let Some(d) = DeviceInfo::lichess_mob_trim(ua) {
            return d;
        }
        let c = uap_parse(parser, ua);
        DeviceInfo::from_uap_client(c)
    }
}

fn copy_text(s: &Option<String>) -> (r: Option<String>)
    ensures
        r == *s,
{
    match s {
        Some(t) => Some(t.clone()),
        None => None,
    }
}

fn copy_list(v: &Vec<String>) -> (r: Vec<String>)
    ensures
        r@ == v@,
{
    let mut out: Vec<String> = Vec::new();
    let mut i: usize = 0;
    while i < v.len()
        invariant
            i <= v@.len(),
            out@ == v@.subrange(0, i as int),
        decreases v@.len() - i,
    {
        out.push(v[i].clone());
        i += 1;
        assert(out@ =~= v@.subrange(0, i as int));
    }
    assert(out@ =~= v@);
    out
}

/// Two users hold the same values.
pub open spec fn same_user(a: User, b: User) -> bool {
    &&& a.username == b.username
    &&& a.email == b.email
    &&& a.ip == b.ip
    &&& a.user_agent == b.user_agent
    &&& a.finger_print == b.finger_print
    &&& a.susp_ip == b.susp_ip
    &&& a.device == b.device
    &&& match (a.geoip, b.geoip) {
        (None, None) => true,
        (Some(x), Some(y)) => {
            &&& x.country == y.country
            &&& x.city == y.city
            &&& match (x.subdivisions, y.subdivisions) {
                (None, None) => true,
                (Some(p), Some(q)) => p@ == q@,
                _ => false,
            }
        },
        _ => false,
    }
}

/// The text of an optional field, or a placeholder where it is absent.
pub open spec fn text_or(v: Option<Seq<char>>, placeholder: Seq<char>) -> Seq<char> {
    match v {
        Some(t) => t,
        None => placeholder,
    }
}

fn text_or_placeholder(v: &Option<String>, placeholder: &str) -> (r: String)
    ensures
        r@ == text_or(crate::clock::opt_view(*v), placeholder@),
{
    match v {
        Some(t) => t.clone(),
        None => string_from(placeholder),
    }
}

impl User {
    /// The user agent, as scripts see it.
    pub fn script_ua(&self) -> (r: String)
        ensures
            r@ == match self.user_agent {
                Some(ua) => ua.0@,
                None => "no user agent detected"@,
            },
    {
        match &self.user_agent {
            Some(ua) => ua.0.clone(),
            None => string_from("no user agent detected"),
        }
    }

    /// The fingerprint, as scripts see it.
    pub fn script_fp(&self) -> (r: String)
        ensures
            r@ == match self.finger_print {
                Some(fp) => fp.0@,
                None => "<NO PRINT>"@,
            },
    {
        match &self.finger_print {
            Some(fp) => fp.0.clone(),
            None => string_from("<NO PRINT>"),
        }
    }

    /// The country, as scripts see it.
    pub fn script_country(&self) -> (r: String)
        ensures
            r@ == match self.geoip {
                Some(g) => text_or(crate::clock::opt_view(g.country), "<NO COUNTRY>"@),
                None => "<NO COUNTRY>"@,
            },
    {
        match &self.geoip {
            Some(g) => text_or_placeholder(&g.country, "<NO COUNTRY>"),
            None => string_from("<NO COUNTRY>"),
        }
    }

    /// The city, as scripts see it.
    pub fn script_city(&self) -> (r: String)
        ensures
            r@ == match self.geoip {
                Some(g) => text_or(crate::clock::opt_view(g.city), "<NO CITY>"@),
                None => "<NO CITY>"@,
            },
    {
        match &self.geoip {
            Some(g) => text_or_placeholder(&g.city, "<NO CITY>"),
            None => string_from("<NO CITY>"),
        }
    }

    /// The subdivisions, as scripts see them; none where they are unknown.
    pub fn script_subdivisions(&self) -> (r: Vec<String>)
        ensures
            r@ == match self.geoip {
                Some(g) => match g.subdivisions {
                    Some(v) => v@,
                    None => Seq::<String>::empty(),
                },
                None => Seq::<String>::empty(),
            },
    {
        match &self.geoip {
            Some(g) => match &g.subdivisions {
                Some(v) => copy_list(v),
                None => Vec::new(),
            },
            None => Vec::new(),
        }
    }

    /// Whether the user is located in subdivision `name`; unknown where the
    /// subdivisions are.
    pub fn script_has_subdivision(&self, name: &String) -> (r: Option<bool>)
        ensures
            r == match self.geoip {
                Some(g) => match g.subdivisions {
                    Some(v) => Some(exists|i: int| 0 <= i < v@.len() && v@[i]@ == name@),
                    None => None,
                },
                None => None,
            },
    {
        match &self.geoip {
            Some(g) => match &g.subdivisions {
                Some(v) => Some(crate::text::contains_string(v, name)),
                None => None,
            },
            None => None,
        }
    }

    /// The device, as scripts see it.
    pub fn script_device(&self) -> (r: String)
        ensures
            r@ == match self.device {
                Some(d) => d.device@,
                None => "<NO DEVICE>"@,
            },
    {
        match &self.device {
            Some(d) => d.device.clone(),
            None => string_from("<NO DEVICE>"),
        }
    }

    /// The operating system, as scripts see it.
    pub fn script_os(&self) -> (r: String)
        ensures
            r@ == match self.device {
                Some(d) => d.os@,
                None => "<NO OS>"@,
            },
    {
        match &self.device {
            Some(d) => d.os.clone(),
            None => string_from("<NO OS>"),
        }
    }

    /// The client, as scripts see it.
    pub fn script_client(&self) -> (r: String)
        ensures
            r@ == match self.device {
                Some(d) => d.client@,
                None => "<NO CLIENT>"@,
            },
    {
        match &self.device {
            Some(d) => d.client.clone(),
            None => string_from("<NO CLIENT>"),
        }
    }

    /// A copy of the user.
    pub fn duplicate(&self) -> (r: User)
        ensures
            same_user(r, *self),
    {
        let geoip = match &self.geoip {
            Some(g) => Some(
                GeoipInfo {
                    country: copy_text(&g.country),
                    city: copy_text(&g.city),
                    subdivisions: match &g.subdivisions {
                        Some(v) => Some(copy_list(v)),
                        None => None,
                    },
                },
            ),
            None => None,
        };
        let device = match &self.device {
            Some(d) => Some(
                DeviceInfo { device: d.device.clone(), os: d.os.clone(), client: d.client.clone() },
            ),
            None => None,
        };
        User {
            username: Username(self.username.0.clone()),
            email: Email(self.email.0.clone()),
            ip: Ip(self.ip.0.clone()),
            user_agent: match &self.user_agent {
                Some(u) => Some(UserAgent(u.0.clone())),
                None => None,
            },
            finger_print: match &self.finger_print {
                Some(f) => Some(FingerPrint(f.0.clone())),
                None => None,
            },
            susp_ip: self.susp_ip,
            geoip,
            device,
        }
    }
}

/// A user name as typed at signup; identity ignores case.
pub struct Username(pub String);

/// An e-mail address.
pub struct Email(pub String);

/// An IP address in text form.
pub struct Ip(pub String);

/// A user agent string.
pub struct UserAgent(pub String);

/// A browser fingerprint hash.
pub struct FingerPrint(pub String);

} // verus!
