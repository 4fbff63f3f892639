//! VATSIM network data: online controllers, timestamps and the OAuth login.

use crate::config::Config;
use crate::in_facility_airspace;
use crate::position_in_facility_airspace;
use crate::text::{append_chars, append_str, chars_of, decimal, push_decimal, string_from_chars};
use std::collections::HashMap;
use vstd::prelude::*;

verus! {

/// A point in time in UTC: whole seconds since the Unix epoch and the
/// nanoseconds past that second (above 999,999,999 only during a leap
/// second).
#[derive(Debug, Clone, Copy, PartialEq, Eq, Structural)]
pub struct UtcInstant {
    pub seconds: i64,
    pub nanos: u32,
}

/// What `NaiveDateTime::parse_from_str` gives for a VATSIM timestamp
/// (format `%Y-%m-%dT%H:%M:%S%.fZ`), read as a UTC instant.
pub uninterp spec fn vatsim_timestamp_instant(stamp: Seq<char>) -> Option<UtcInstant>;

/// Calls `chrono::NaiveDateTime::parse_from_str` with the VATSIM timestamp
/// format and reads the result in UTC (`and_utc`), giving its Unix
/// timestamp and sub-second nanoseconds. The contract names the result and
/// bounds the nanoseconds, which chrono keeps below two seconds' worth.
#[verifier::external_body]
fn chrono_parse_vatsim_timestamp(stamp: &str) -> (r: Option<UtcInstant>)
    ensures
        r == vatsim_timestamp_instant(stamp@),
        r matches Some(t) ==> t.nanos < 2_000_000_000,
{
    chrono::NaiveDateTime::parse_from_str(stamp, "%Y-%m-%dT%H:%M:%S%.fZ").ok().map(
        |naive| {
            let utc = naive.and_utc();
            UtcInstant { seconds: utc.timestamp(), nanos: utc.timestamp_subsec_nanos() }
        },
    )
}

/// A VATSIM timestamp that could not be read.
#[derive(Debug, Clone, Copy, PartialEq, Eq, Structural)]
pub struct TimestampError;

/// Parse a VATSIM timestamp into a UTC instant.
pub fn parse_vatsim_timestamp(stamp: &str) -> (r: Result<UtcInstant, TimestampError>)
    ensures
        match vatsim_timestamp_instant(stamp@) {
            Some(t) => r == Ok::<UtcInstant, TimestampError>(t),
            None => r == Err::<UtcInstant, TimestampError>(TimestampError),
        },
{
    match chrono_parse_vatsim_timestamp(stamp) {
        Some(t) => Ok(t),
        None => Err(TimestampError),
    }
}

/// Seconds are within the range that chrono's dates can express.
pub open spec fn instant_in_range(t: UtcInstant) -> bool {
    -10_000_000_000_000 <= t.seconds <= 10_000_000_000_000 && t.nanos < 2_000_000_000
}

/// Whole seconds from `then` to `now`, rounded toward zero (as
/// `TimeDelta::num_seconds` gives them).
pub open spec fn whole_seconds_between(now: UtcInstant, then: UtcInstant) -> int {
    let d = (now.seconds - then.seconds) * 1_000_000_000 + (now.nanos - then.nanos);
    if d >= 0 {
        d / 1_000_000_000
    } else {
        -((-d) / 1_000_000_000)
    }
}

/// A duration of `seconds` written as hours and minutes, e.g. `2h5m`.
pub open spec fn hours_minutes(seconds: u32) -> Seq<char> {
    decimal((seconds / 3600) as nat) + "h"@ + decimal(((seconds / 60) % 60) as nat) + "m"@
}

/// Whole seconds from `then` to `now`, rounded toward zero.
pub fn seconds_between(now: UtcInstant, then: UtcInstant) -> (s: i64)
    requires
        instant_in_range(now),
        instant_in_range(then),
    ensures
        s == whole_seconds_between(now, then),
{
    let d: i128 = ((now.seconds as i128) - (then.seconds as i128)) * 1_000_000_000 + ((
    now.nanos as i128) - (then.nanos as i128));
    let q: i128 = if d >= 0 {
        d / 1_000_000_000
    } else {
        -((-d) / 1_000_000_000)
    };
    q as i64
}

/// How long a controller has been online, written as hours and minutes of
/// the whole seconds since logon cut to 32 bits.
pub fn online_duration(now: UtcInstant, logon: UtcInstant) -> (s: String)
    requires
        instant_in_range(now),
        instant_in_range(logon),
    ensures
        s@ == hours_minutes(whole_seconds_between(now, logon) as u32),
{
    let seconds = seconds_between(now, logon) as u32;
    let mut v: Vec<char> = Vec::new();
    push_decimal(&mut v, (seconds / 3600) as u64);
    append_str(&mut v, "h");
    push_decimal(&mut v, ((seconds / 60) % 60) as u64);
    append_str(&mut v, "m");
    assert(v@ =~= hours_minutes(seconds));
    string_from_chars(&v)
}

/// A controller session as the VATSIM live data reports it.
#[derive(Debug, Clone)]
pub struct LiveController {
    pub cid: u64,
    pub callsign: String,
    pub logon_time: String,
}

/// A known controller's first and last names, by CID.
#[derive(Debug, Clone)]
pub struct ControllerName {
    pub cid: u32,
    pub first_name: String,
    pub last_name: String,
}

/// A facility controller currently online.
#[derive(Debug)]
pub struct OnlineController {
    pub cid: u32,
    pub callsign: String,
    pub name: String,
    pub online_for: String,
}

/// The name shown for a CID: the first and last name of its first entry in
/// `names`, or `?`.
pub open spec fn display_name(names: Seq<ControllerName>, cid: u32) -> Seq<char>
    decreases names.len(),
{
    if names.len() == 0 {
        "?"@
    } else if names[0].cid == cid {
        names[0].first_name@ + " "@ + names[0].last_name@
    } else {
        display_name(names.drop_first(), cid)
    }
}

/// The name shown for a CID: "first last", or `?` when it is unknown.
pub fn name_for_cid(names: &Vec<ControllerName>, cid: u32) -> (s: String)
    ensures
        s@ == display_name(names@, cid),
{
    let mut i: usize = 0;
    assert(names@.skip(0) =~= names@);
    while i < names.len()
        invariant
            i <= names.len(),
            display_name(names@, cid) == display_name(names@.skip(i as int), cid),
        decreases names.len() - i,
    {
        assert(names@.skip(i as int).drop_first() =~= names@.skip(i + 1));
        if names[i].cid == cid {
            let mut v = chars_of(names[i].first_name.as_str());
            append_str(&mut v, " ");
            let last = chars_of(names[i].last_name.as_str());
            append_chars(&mut v, &last);
            return string_from_chars(&v);
        }
        i = i + 1;
    }
    "?".to_owned()
}

/// A logon time that can be read, within chrono's range.
pub open spec fn logon_readable(stamp: Seq<char>) -> bool {
    match vatsim_timestamp_instant(stamp) {
        Some(t) => instant_in_range(t),
        None => false,
    }
}

/// Every in-airspace session's logon time can be read.
pub open spec fn logons_readable(config: Config, sessions: Seq<LiveController>) -> bool {
    forall|i: int|
        0 <= i < sessions.len() && in_facility_airspace(config, #[trigger] sessions[i].callsign@)
            ==> logon_readable(sessions[i].logon_time@)
}

/// The sessions that lie in the facility's airspace, in order.
pub open spec fn facility_sessions(config: Config, sessions: Seq<LiveController>) -> Seq<LiveController>
    decreases sessions.len(),
{
    if sessions.len() == 0 {
        Seq::empty()
    } else {
        let prev = facility_sessions(config, sessions.drop_last());
        if in_facility_airspace(config, sessions.last().callsign@) {
            prev.push(sessions.last())
        } else {
            prev
        }
    }
}

/// What the online list shows for one session.
pub open spec fn online_entry(
    session: LiveController,
    names: Seq<ControllerName>,
    now: UtcInstant,
) -> (u32, Seq<char>, Seq<char>, Seq<char>) {
    let logon = vatsim_timestamp_instant(session.logon_time@)->0;
    (
        session.cid as u32,
        session.callsign@,
        display_name(names, session.cid as u32),
        hours_minutes(whole_seconds_between(now, logon) as u32),
    )
}

/// The fields of an online-list entry.
pub open spec fn online_fields(c: OnlineController) -> (u32, Seq<char>, Seq<char>, Seq<char>) {
    (c.cid, c.callsign@, c.name@, c.online_for@)
}

/// Facility controllers currently online: the sessions in the facility's
/// airspace, in order, each with its CID cut to 32 bits, its callsign, the
/// controller's name (or `?`) and how long it has been online.
pub fn online_facility_controllers(
    config: &Config,
    sessions: &Vec<LiveController>,
    names: &Vec<ControllerName>,
    now: UtcInstant,
) -> (r: Vec<OnlineController>)
    requires
        logons_readable(*config, sessions@),
        instant_in_range(now),
    ensures
        r@.map_values(|c: OnlineController| online_fields(c)) == facility_sessions(
            *config,
            sessions@,
        ).map_values(|s: LiveController| online_entry(s, names@, now)),
{
    let mut out: Vec<OnlineController> = Vec::new();
    let mut i: usize = 0;
    while i < sessions.len()
        invariant
            i <= sessions.len(),
            logons_readable(*config, sessions@),
            instant_in_range(now),
            out@.map_values(|c: OnlineController| online_fields(c)) == facility_sessions(
                *config,
                sessions@.take(i as int),
            ).map_values(|s: LiveController| online_entry(s, names@, now)),
        decreases sessions.len() - i,
    {
        let ghost prev = sessions@.take(i as int);
        assert(sessions@.take(i + 1).drop_last() =~= prev);
        assert(sessions@.take(i + 1).last() == sessions@[i as int]);
        let session = &sessions[i];
        if position_in_facility_airspace(config, session.callsign.as_str()) {
            let logon = match parse_vatsim_timestamp(session.logon_time.as_str()) {
                Ok(t) => t,
                Err(_) => {
                    assert(false);
                    UtcInstant { seconds: 0, nanos: 0 }
                },
            };
            let entry = OnlineController {
                cid: session.cid as u32,
                callsign: session.callsign.clone(),
                name: name_for_cid(names, session.cid as u32),
                online_for: online_duration(now, logon),
            };
            out.push(entry);
            assert(out@.map_values(|c: OnlineController| online_fields(c)) =~= facility_sessions(
                *config,
                prev,
            ).map_values(|s: LiveController| online_entry(s, names@, now)).push(
                online_entry(sessions@[i as int], names@, now),
            ));
        }
        i = i + 1;
    }
    assert(sessions@.take(sessions.len() as int) =~= sessions@);
    out
}

/// Whether every in-airspace session's logon time can be read (so that
/// the online list can be built).
pub fn check_logons_readable(config: &Config, sessions: &Vec<LiveController>) -> (r: bool)
    ensures
        r == logons_readable(*config, sessions@),
{
    let mut i: usize = 0;
    while i < sessions.len()
        invariant
            i <= sessions.len(),
            forall|j: int|
                0 <= j < i && in_facility_airspace(*config, #[trigger] sessions@[j].callsign@)
                    ==> logon_readable(sessions@[j].logon_time@),
        decreases sessions.len() - i,
    {
        if position_in_facility_airspace(config, sessions[i].callsign.as_str()) {
            match parse_vatsim_timestamp(sessions[i].logon_time.as_str()) {
                Ok(t) => {
                    if !(t.seconds >= -10_000_000_000_000 && t.seconds <= 10_000_000_000_000
                        && t.nanos < 2_000_000_000) {
                        return false;
                    }
                },
                Err(_) => {
                    return false;
                },
            }
        }
        i = i + 1;
    }
    true
}

/// Facility controllers currently online, or `None` when some session in
/// the facility's airspace has a logon time that cannot be read.
pub fn get_online_facility_controllers(
    config: &Config,
    sessions: &Vec<LiveController>,
    names: &Vec<ControllerName>,
    now: UtcInstant,
) -> (r: Option<Vec<OnlineController>>)
    requires
        instant_in_range(now),
    ensures
        r is Some <==> logons_readable(*config, sessions@),
        r matches Some(list) ==> list@.map_values(|c: OnlineController| online_fields(c))
            == facility_sessions(*config, sessions@).map_values(
            |s: LiveController| online_entry(s, names@, now),
        ),
{
    if check_logons_readable(config, sessions) {
        Some(online_facility_controllers(config, sessions, names, now))
    } else {
        None
    }
}

// ---------------------------------------------------------------------------
// OAuth
// ---------------------------------------------------------------------------

#[derive(Debug, Clone)]
pub struct AuthCallback {
    pub code: String,
}

#[derive(Debug, Clone)]
pub struct TokenResponse {
    pub scopes: Vec<String>,
    pub token_type: String,
    pub expires_in: u64,
    pub access_token: String,
    pub refresh_token: String,
}

#[derive(Debug, Clone)]
pub struct UserInfoResponse {
    pub data: UserInfoResponseData,
}

#[derive(Debug, Clone)]
pub struct UserInfoResponseData {
    pub cid: String,
    pub personal: UserInfoResponseDataPersonal,
    pub vatsim: UserInfoResponseDataVatsim,
}

#[derive(Debug, Clone)]
pub struct UserInfoResponseDataPersonal {
    pub name_first: String,
    pub name_last: String,
    pub name_full: String,
    pub email: String,
}

#[derive(Debug, Clone)]
pub struct UserInfoResponseDataVatsim {
    pub rating: IdLongShort,
    pub pilot_rating: IdLongShort,
    pub division: IdName,
    pub region: IdName,
    pub subdivision: IdName,
}

#[derive(Debug, Clone)]
pub struct IdLongShort {
    pub id: u32,
    pub long: String,
    pub short: String,
}

#[derive(Debug, Clone)]
pub struct IdName {
    pub id: Option<String>,
    pub name: Option<String>,
}

/// The URL that starts the VATSIM OAuth login flow.
pub open spec fn oauth_start_url(config: Config) -> Seq<char> {
    config.vatsim.oauth_url_base@ + "oauth/authorize?response_type=code&client_id="@
        + config.vatsim.oauth_client_id@ + "&redirect_uri="@
        + config.vatsim.oauth_client_callback_url@ + "&scope="@ + "full_name email vatsim_details"@
}

/// Build the URL to redirect users to in order to start
/// their VATSIM OAuth login flow.
pub fn oauth_redirect_start(config: &Config) -> (url: String)
    ensures
        url@ == oauth_start_url(*config),
{
    let mut v = chars_of(config.vatsim.oauth_url_base.as_str());
    append_str(&mut v, "oauth/authorize?response_type=code&client_id=");
    append_str(&mut v, config.vatsim.oauth_client_id.as_str());
    append_str(&mut v, "&redirect_uri=");
    append_str(&mut v, config.vatsim.oauth_client_callback_url.as_str());
    append_str(&mut v, "&scope=");
    append_str(&mut v, "full_name email vatsim_details");
    assert(v@ =~= oauth_start_url(*config));
    string_from_chars(&v)
}

/// The URL of the OAuth token exchange.
pub fn oauth_token_url(config: &Config) -> (url: String)
    ensures
        url@ == config.vatsim.oauth_url_base@ + "oauth/token"@,
{
    let mut v = chars_of(config.vatsim.oauth_url_base.as_str());
    append_str(&mut v, "oauth/token");
    string_from_chars(&v)
}

/// The URL of the OAuth user information endpoint.
pub fn oauth_user_url(config: &Config) -> (url: String)
    ensures
        url@ == config.vatsim.oauth_url_base@ + "api/user"@,
{
    let mut v = chars_of(config.vatsim.oauth_url_base.as_str());
    append_str(&mut v, "api/user");
    string_from_chars(&v)
}

/// The body of the OAuth token exchange request.
#[derive(Debug)]
pub struct TokenRequest {
    pub grant_type: String,
    pub client_id: String,
    pub client_secret: String,
    pub redirect_uri: String,
    pub code: String,
}

/// The request that exchanges the code from VATSIM OAuth for an access
/// token.
pub fn token_request(code: &str, config: &Config) -> (r: TokenRequest)
    ensures
        r.grant_type@ == "authorization_code"@,
        r.client_id@ == config.vatsim.oauth_client_id@,
        r.client_secret@ == config.vatsim.oauth_client_secret@,
        r.redirect_uri@ == config.vatsim.oauth_client_callback_url@,
        r.code@ == code@,
{
    TokenRequest {
        grant_type: String::from_str("authorization_code"),
        client_id: config.vatsim.oauth_client_id.clone(),
        client_secret: config.vatsim.oauth_client_secret.clone(),
        redirect_uri: config.vatsim.oauth_client_callback_url.clone(),
        code: String::from_str(code),
    }
}

/// The authorization header that presents the user's access token.
pub fn bearer_header(access_token: &str) -> (h: String)
    ensures
        h@ == "Bearer "@ + access_token@,
{
    let mut v: Vec<char> = Vec::new();
    append_str(&mut v, "Bearer ");
    append_str(&mut v, access_token);
    string_from_chars(&v)
}

/// SimAware's pilot session ids by pilot CID; of two sessions of one pilot,
/// the later listed is kept.
pub open spec fn simaware_ids(pilots: Seq<(String, u64)>) -> Map<u64, Seq<char>>
    decreases pilots.len(),
{
    if pilots.len() == 0 {
        Map::empty()
    } else {
        simaware_ids(pilots.drop_last()).insert(pilots.last().1, pilots.last().0@)
    }
}

/// The view of a map from CIDs to session ids.
pub open spec fn id_map_view(m: Map<u64, String>) -> Map<u64, Seq<char>> {
    Map::new(|k: u64| m.contains_key(k), |k: u64| m[k]@)
}

/// Map SimAware's active pilot sessions (session id, pilot CID) to session
/// ids by CID.
pub fn simaware_mapping(pilots: &Vec<(String, u64)>) -> (m: HashMap<u64, String>)
    ensures
        id_map_view(m@) == simaware_ids(pilots@),
{
    broadcast use vstd::std_specs::hash::group_hash_axioms;

    let mut m: HashMap<u64, String> = HashMap::new();
    let mut i: usize = 0;
    while i < pilots.len()
        invariant
            i <= pilots.len(),
            id_map_view(m@) == simaware_ids(pilots@.take(i as int)),
        decreases pilots.len() - i,
    {
        assert(pilots@.take(i + 1).drop_last() =~= pilots@.take(i as int));
        let ghost before = m@;
        let id = pilots[i].0.clone();
        m.insert(pilots[i].1, id);
        assert(id_map_view(m@) =~= id_map_view(before).insert(pilots@[i as int].1, pilots@[i as int].0@));
        i = i + 1;
    }
    assert(pilots@.take(pilots.len() as int) =~= pilots@);
    m
}

} // verus!
