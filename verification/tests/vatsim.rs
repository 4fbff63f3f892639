use vzdv::config::Config;
use vzdv::vatsim::{
    bearer_header, get_online_facility_controllers, oauth_redirect_start, oauth_token_url,
    oauth_user_url, online_duration, parse_vatsim_timestamp, simaware_mapping, token_request,
    ControllerName, LiveController, TimestampError, UtcInstant,
};

#[test]
fn lib_test_parse_vatsim_timestamp() {
    parse_vatsim_timestamp("2024-03-02T16:20:37.0439318Z").unwrap();
}

#[test]
fn mod_test_parse_vatsim_timestamp() {
    parse_vatsim_timestamp("2024-03-02T16:20:37.0439318Z").unwrap();
}

#[test]
fn vatsim_timestamp_values_and_errors() {
    let t = parse_vatsim_timestamp("2024-03-02T16:20:37.0439318Z").unwrap();
    assert_eq!(t.seconds, 1709396437);
    assert_eq!(t.nanos, 43931800);
    assert_eq!(parse_vatsim_timestamp("2024-03-02 16:20:37"), Err(TimestampError));
    assert_eq!(parse_vatsim_timestamp(""), Err(TimestampError));
}

#[test]
fn online_duration_hours_and_minutes() {
    let logon = UtcInstant { seconds: 1_000_000, nanos: 0 };
    let now = UtcInstant { seconds: 1_000_000 + 2 * 3600 + 5 * 60 + 59, nanos: 1 };
    assert_eq!(online_duration(now, logon), "2h5m");
    assert_eq!(online_duration(logon, logon), "0h0m");
}

fn denver_config() -> Config {
    let mut config = Config::default();
    config.stats.position_prefixes.push("DEN".to_string());
    config.stats.position_suffixes.push("_TWR".to_string());
    config.stats.position_suffixes.push("_CTR".to_string());
    config
}

#[test]
fn online_facility_controllers_named_and_timed() {
    let config = denver_config();
    let sessions = vec![
        LiveController {
            cid: 1,
            callsign: "DEN_TWR".to_string(),
            logon_time: "2024-03-02T16:00:00.0000000Z".to_string(),
        },
        LiveController {
            cid: 2,
            callsign: "SLC_CTR".to_string(),
            logon_time: "bad".to_string(),
        },
        LiveController {
            cid: 3,
            callsign: "DEN_CTR".to_string(),
            logon_time: "2024-03-02T15:30:00.0000000Z".to_string(),
        },
    ];
    let names = vec![ControllerName {
        cid: 1,
        first_name: "Jane".to_string(),
        last_name: "Doe".to_string(),
    }];
    let now = parse_vatsim_timestamp("2024-03-02T17:10:00.0000000Z").unwrap();
    let online = get_online_facility_controllers(&config, &sessions, &names, now).unwrap();
    assert_eq!(online.len(), 2);
    assert_eq!(online[0].cid, 1);
    assert_eq!(online[0].callsign, "DEN_TWR");
    assert_eq!(online[0].name, "Jane Doe");
    assert_eq!(online[0].online_for, "1h10m");
    assert_eq!(online[1].cid, 3);
    assert_eq!(online[1].name, "?");
    assert_eq!(online[1].online_for, "1h40m");
}

#[test]
fn online_facility_controllers_unreadable_logon() {
    let config = denver_config();
    let sessions = vec![LiveController {
        cid: 1,
        callsign: "DEN_TWR".to_string(),
        logon_time: "yesterday".to_string(),
    }];
    let now = UtcInstant { seconds: 0, nanos: 0 };
    assert!(get_online_facility_controllers(&config, &sessions, &Vec::new(), now).is_none());
}

#[test]
fn vatsim_oauth_addresses_and_requests() {
    let mut config = Config::default();
    config.vatsim.oauth_url_base = "https://auth.vatsim.net/".to_string();
    config.vatsim.oauth_client_id = "42".to_string();
    config.vatsim.oauth_client_secret = "SECRET-REDACTED".to_string();
    config.vatsim.oauth_client_callback_url = "https://zdv.example/callback".to_string();
    assert_eq!(
        oauth_redirect_start(&config),
        "https://auth.vatsim.net/oauth/authorize?response_type=code&client_id=42&redirect_uri=https://zdv.example/callback&scope=full_name email vatsim_details"
    );
    assert_eq!(oauth_token_url(&config), "https://auth.vatsim.net/oauth/token");
    assert_eq!(oauth_user_url(&config), "https://auth.vatsim.net/api/user");
    let req = token_request("abc", &config);
    assert_eq!(req.grant_type, "authorization_code");
    assert_eq!(req.client_id, "42");
    assert_eq!(req.client_secret, "SECRET-REDACTED");
    assert_eq!(req.redirect_uri, "https://zdv.example/callback");
    assert_eq!(req.code, "abc");
    assert_eq!(bearer_header("tok"), "Bearer tok");
}

#[test]
fn simaware_mapping_keeps_later_session() {
    let pilots = vec![
        ("a1".to_string(), 10u64),
        ("b2".to_string(), 20u64),
        ("c3".to_string(), 10u64),
    ];
    let m = simaware_mapping(&pilots);
    assert_eq!(m.len(), 2);
    assert_eq!(m[&10], "c3");
    assert_eq!(m[&20], "b2");
}
