//! Translation of device-bus events into topic and payload pairs.
use vstd::prelude::*;
use vstd::string::StringSliceAdditionalSpecFns;

verus! {

broadcast use vstd::utf8::encode_utf8_decode_utf8;

/// The optional parameter an event arrives with.
#[derive(Debug, Clone, PartialEq)]
pub enum LipcResult {
    NUM(i32),
    STR(String),
}

/// The events that are reported, and the others by name.
#[derive(Debug, Clone, PartialEq)]
pub enum Events {
    WifiDisconnected,
    WifiConnected,
    ScreenOff,
    ScreenOn,
    BatteryChanged,
    Unknown(String),
}

/// Whether `e` is what the event name `s` stands for.
pub open spec fn names_event(s: Seq<char>, e: Events) -> bool {
    if s == "cmConnected"@ {
        e is WifiConnected
    } else if s == "goingToScreenSaver"@ {
        e is ScreenOff
    } else if s == "outOfScreenSaver"@ {
        e is ScreenOn
    } else if s == "battLevelChanged"@ {
        e is BatteryChanged
    } else if s == "suspending"@ || s == "readyToSuspend"@ {
        e is WifiDisconnected
    } else {
        e matches Events::Unknown(t) && t@ == s
    }
}

/// The topic an event is published on; none for an unknown event.
pub open spec fn topic_of(e: Events) -> Option<Seq<char>> {
    match e {
        Events::WifiDisconnected => Some("KINDLE/CONNECTED"@),
        Events::WifiConnected => Some("KINDLE/CONNECTED"@),
        Events::ScreenOff => Some("KINDLE/SCREEN_STATE"@),
        Events::ScreenOn => Some("KINDLE/SCREEN_STATE"@),
        Events::BatteryChanged => Some("KINDLE/BATTERY_STATE"@),
        Events::Unknown(_) => None,
    }
}

/// The base-ten digit `d`.
pub open spec fn digit_char(d: nat) -> char {
    seq!['0', '1', '2', '3', '4', '5', '6', '7', '8', '9'][d as int]
}

/// The base-ten numeral of `n`, without leading zeros.
pub open spec fn digits(n: nat) -> Seq<char>
    decreases n,
{
    if n < 10 {
        seq![digit_char(n)]
    } else {
        digits(n / 10).push(digit_char(n % 10))
    }
}

/// The base-ten numeral of `n`, with a leading '-' when it is negative.
pub open spec fn decimal(n: int) -> Seq<char> {
    if n < 0 {
        seq!['-'] + digits((-n) as nat)
    } else {
        digits(n as nat)
    }
}

/// The payload an event is published with: the battery level as a
/// numeral, 1 for connected or screen on, 0 for disconnected or screen off.
pub open spec fn payload_of(e: Events, res: Option<LipcResult>) -> Option<Seq<char>> {
    match e {
        Events::BatteryChanged => match res {
            Some(LipcResult::NUM(level)) => Some(decimal(level as int)),
            _ => None,
        },
        Events::WifiDisconnected => Some("0"@),
        Events::WifiConnected => Some("1"@),
        Events::ScreenOn => Some("1"@),
        Events::ScreenOff => Some("0"@),
        Events::Unknown(_) => None,
    }
}

/// Relies on `ToString::to_string` through `i32`'s `Display`: the
/// base-ten numeral, with a leading '-' when negative.
#[verifier::external_body]
fn decimal_string(n: i32) -> (r: String)
    ensures
        r@ == decimal(n as int),
{
    n.to_string()
}

fn same_bytes(a: &[u8], b: &[u8]) -> (r: bool)
    ensures
        r == (a@ == b@),
{
    if a.len() != b.len() {
        return false;
    }
    let mut i: usize = 0;
    while i < a.len()
        invariant
            a@.len() == b@.len(),
            i <= a@.len(),
            forall|j: int| 0 <= j < i ==> a@[j] == b@[j],
        decreases a@.len() - i,
    {
        if a[i] != b[i] {
            return false;
        }
        i = i + 1;
    }
    assert(a@ =~= b@);
    true
}

fn is_name(s: &str, name: &str) -> (r: bool)
    ensures
        r == (s@ == name@),
{
    let r = same_bytes(s.as_bytes(), name.as_bytes());
    proof {
        if r {
            assert(vstd::utf8::decode_utf8(s.spec_bytes()) == vstd::utf8::decode_utf8(
                name.spec_bytes(),
            ));
        }
    }
    r
}

impl Events {
    /// The event that the name `s` stands for.
    pub fn from_str(s: &str) -> (r: Events)
        ensures
            names_event(s@, r),
    {
        if is_name(s, "cmConnected") {
            Events::WifiConnected
        } else if is_name(s, "goingToScreenSaver") {
            Events::ScreenOff
        } else if is_name(s, "outOfScreenSaver") {
            Events::ScreenOn
        } else if is_name(s, "battLevelChanged") {
            Events::BatteryChanged
        } else if is_name(s, "suspending") || is_name(s, "readyToSuspend") {
            Events::WifiDisconnected
        } else {
            Events::Unknown(s.to_owned())
        }
    }

    /// The topic this event is published on, if it is one that is reported.
    pub fn to_topic(&self) -> (r: Option<&'static str>)
        ensures
            match r {
                Some(t) => topic_of(*self) == Some(t@),
                None => topic_of(*self) is None,
            },
    {
        match self {
            Events::WifiDisconnected => Some("KINDLE/CONNECTED"),
            Events::WifiConnected => Some("KINDLE/CONNECTED"),
            Events::ScreenOff => Some("KINDLE/SCREEN_STATE"),
            Events::ScreenOn => Some("KINDLE/SCREEN_STATE"),
            Events::BatteryChanged => Some("KINDLE/BATTERY_STATE"),
            Events::Unknown(_) => None,
        }
    }

    /// The payload this event is published with, given its parameter.
    pub fn payload(&self, res: &Option<LipcResult>) -> (r: Option<String>)
        ensures
            match r {
                Some(m) => payload_of(*self, *res) == Some(m@),
                None => payload_of(*self, *res) is None,
            },
    {
        match self {
            Events::BatteryChanged => match res {
                Some(LipcResult::NUM(level)) => Some(decimal_string(*level)),
                _ => None,
            },
            Events::WifiDisconnected => Some("0".to_owned()),
            Events::WifiConnected => Some("1".to_owned()),
            Events::ScreenOn => Some("1".to_owned()),
            Events::ScreenOff => Some("0".to_owned()),
            Events::Unknown(_) => None,
        }
    }
}

/// What to publish for the event named `in_event` with parameter `res`:
/// its topic and payload, or nothing when the event is not reported.
pub fn event_update(in_event: &str, res: &Option<LipcResult>) -> (r: Option<(&'static str, String)>)
    ensures
        forall|e: Events|
            names_event(in_event@, e) ==> match r {
                Some((t, m)) => topic_of(e) == Some(t@) && payload_of(e, *res) == Some(m@),
                None => payload_of(e, *res) is None,
            },
{
    let ev = Events::from_str(in_event);
    let topic = ev.to_topic();
    match ev.payload(res) {
        Some(m) => match topic {
            Some(t) => Some((t, m)),
            None => None,
        },
        None => None,
    }
}

} // verus!
