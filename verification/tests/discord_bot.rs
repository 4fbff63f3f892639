use vzdv::bot::{
    bot_id_from_decoded, bot_id_from_token, checked_bot_id_from_token, member_needs_processing,
    online_section, OnlineSection,
};
use vzdv::config::Config;
use vzdv::discord_oauth::{authorization_header, get_oauth_link, token_exchange_form, DiscordAccessToken};
use vzdv::discord_roles::{get_correct_roles, nickname_for, resolve_roles, set_nickname, NicknameUpdate, RoleChange};
use vzdv::events::{
    all_controller_names, can_view_event, event_positions_extra, event_registrations_extra,
    registration_action, show_unpublished_events, RegistrationAction,
};
use vzdv::import::{certifications_to_store, rating_from_abbreviation, stored_discord_id, AdhCertification};
use vzdv::sql::{Controller, EventPosition, EventRegistration};
use vzdv::vatsim::OnlineController;
use vzdv::ControllerRating;

fn roles_config() -> Config {
    let mut config = Config::default();
    let r = &mut config.discord.roles;
    r.home_controller = 1;
    r.visiting_controller = 2;
    r.guest = 3;
    r.administrator = 4;
    r.supervisor = 5;
    r.instructor_3 = 6;
    r.instructor_1 = 7;
    r.controller_3 = 8;
    r.controller_1 = 9;
    r.student_3 = 10;
    r.student_2 = 11;
    r.student_1 = 12;
    r.observer = 13;
    r.sr_staff = 14;
    r.jr_staff = 15;
    config
}

fn controller(first: &str, last: &str, ois: Option<&str>, roles: &str, rating: i8, home: &str) -> Controller {
    let mut c = Controller::default();
    c.cid = 1;
    c.first_name = first.to_string();
    c.last_name = last.to_string();
    c.operating_initials = ois.map(|s| s.to_string());
    c.roles = roles.to_string();
    c.rating = rating;
    c.home_facility = home.to_string();
    c.is_on_roster = true;
    c
}

#[test]
fn discord_roles_for_members() {
    let config = roles_config();
    let home = controller("A", "B", None, "MTR,EC", 5, "ZDV");
    let roles = get_correct_roles(&config, &Some(home));
    assert_eq!(roles.len(), 15);
    let held: Vec<u64> = roles.iter().filter(|r| r.1).map(|r| r.0).collect();
    assert_eq!(held, vec![1, 9, 15]);
    let visitor = controller("A", "B", None, "DATM", 8, "ZLC");
    let held: Vec<u64> = get_correct_roles(&config, &Some(visitor)).iter().filter(|r| r.1).map(|r| r.0).collect();
    assert_eq!(held, vec![2, 7, 14]);
    let held: Vec<u64> = get_correct_roles(&config, &None).iter().filter(|r| r.1).map(|r| r.0).collect();
    assert_eq!(held, vec![3]);
}

#[test]
fn role_changes_add_and_remove() {
    let existing = vec![1, 3, 99];
    let wanted = vec![(1, true), (2, true), (3, false), (4, false)];
    assert_eq!(
        resolve_roles(&existing, &wanted),
        vec![RoleChange::Add(2), RoleChange::Remove(3)]
    );
    assert!(resolve_roles(&vec![2], &vec![(2, true), (3, false)]).is_empty());
}

#[test]
fn nicknames_show_initials_and_title() {
    let c = controller("Jane", "Doe", Some("JD"), "ATM,DATM", 5, "ZDV");
    assert_eq!(nickname_for(&c), "Jane D. - JD | DATM");
    let c = controller("Sam", "Lee", Some(""), "AFE", 5, "ZDV");
    assert_eq!(nickname_for(&c), "Sam L. | FE");
    let c = controller("Kim", "Park", None, "", 5, "ZDV");
    assert_eq!(nickname_for(&c), "Kim P.");
    assert_eq!(set_nickname(&Some("Kim P.".to_string()), &c), NicknameUpdate::Keep);
    assert_eq!(set_nickname(&Some("Kim".to_string()), &c), NicknameUpdate::Replace("Kim P.".to_string()));
    assert_eq!(set_nickname(&None, &c), NicknameUpdate::Replace("Kim P.".to_string()));
}

#[test]
fn discord_oauth_link_encodes_the_redirect() {
    let mut config = Config::default();
    config.discord.auth.client_id = "123".to_string();
    config.discord.auth.redirect_uri = "https://zdv.example/auth/discord?x=1 é".to_string();
    assert_eq!(
        get_oauth_link(&config),
        "https://discord.com/oauth2/authorize?client_id=123&response_type=code&redirect_uri=https%3A%2F%2Fzdv.example%2Fauth%2Fdiscord%3Fx%3D1%20%C3%A9&scope=identify"
    );
    let form = token_exchange_form("the-code", &config);
    assert_eq!(form[0], ("grant_type".to_string(), "authorization_code".to_string()));
    assert_eq!(form[1].1, "https://zdv.example/auth/discord?x=1 é");
    assert_eq!(form[2], ("code".to_string(), "the-code".to_string()));
    let token = DiscordAccessToken { token_type: "Bearer".to_string(), access_token: "abc".to_string() };
    assert_eq!(authorization_header(&token), "Bearer abc");
}

#[test]
fn bot_id_from_its_token() {
    let token = "MTIzNDU2Nzg5MDEyMzQ1Njc4.GaBcDe.secret";
    assert_eq!(bot_id_from_token(token), 123456789012345678);
    assert_eq!(checked_bot_id_from_token(token), Some(123456789012345678));
    assert_eq!(checked_bot_id_from_token("aGVsbG8.x.y"), None);
    assert_eq!(checked_bot_id_from_token("!!!"), None);
    assert_eq!(bot_id_from_decoded(&b"42".to_vec()), Some(42));
    assert_eq!(bot_id_from_decoded(&vec![0xff, 0x31]), None);
    assert!(member_needs_processing(5, 6, false));
    assert!(!member_needs_processing(6, 6, false));
    assert!(!member_needs_processing(5, 6, true));
}

#[test]
fn online_message_sections() {
    let online = |callsign: &str| OnlineController {
        cid: 1,
        callsign: callsign.to_string(),
        name: "Jane Doe".to_string(),
        online_for: "1h2m".to_string(),
    };
    let list = vec![online("DEN_CTR"), online("DEN_APP"), online("DEN_TWR"), online("DEN_ATIS"), online("DEN_N_TMU")];
    assert_eq!(
        online_section(OnlineSection::Enroute, &list),
        "DEN_CTR - Jane Doe - 1h2m\nDEN_N_TMU - Jane Doe - 1h2m\n"
    );
    assert_eq!(online_section(OnlineSection::Tracon, &list), "DEN_APP - Jane Doe - 1h2m\n");
    assert_eq!(online_section(OnlineSection::Cab, &list), "DEN_TWR - Jane Doe - 1h2m\n");
    assert_eq!(online_section(OnlineSection::Cab, &Vec::new()), "");
}

#[test]
fn event_pages_name_positions_and_registrants() {
    let jane = controller("Jane", "Doe", Some("JD"), "", 5, "ZDV");
    let sam = controller("Sam", "Lee", None, "", 42, "ZDV");
    assert_eq!(all_controller_names(&vec![jane.clone(), sam.clone()]), vec!["Jane Doe (JD)", "Sam Lee (??)"]);
    let pos = |id: u32, name: &str, cid: Option<u32>| EventPosition {
        id,
        event_id: 1,
        name: name.to_string(),
        category: "Enroute".to_string(),
        cid,
    };
    let positions = vec![pos(1, "DEN_TWR", Some(5)), pos(2, "DEN_CTR", None), pos(3, "DEN_APP", Some(6))];
    let shown = event_positions_extra(&positions, &vec![Some(jane.clone()), Some(sam.clone()), None]);
    assert_eq!(shown.iter().map(|p| p.name.as_str()).collect::<Vec<_>>(), vec!["DEN_APP", "DEN_CTR", "DEN_TWR"]);
    assert_eq!(shown[0].controller, "unassigned");
    assert_eq!(shown[1].controller, "unassigned");
    assert_eq!(shown[2].controller, "Jane Doe (JD)");
    let reg = EventRegistration {
        id: 1,
        event_id: 1,
        cid: 5,
        choice_1: 3,
        choice_2: 0,
        choice_3: 1,
        notes: Some("any".to_string()),
    };
    let regs = event_registrations_extra(&vec![reg.clone(), reg], &positions, &vec![Some(jane), None]);
    assert_eq!(regs[0].controller, "Jane Doe (JD) - C1");
    assert_eq!(regs[0].choice_1, "DEN_APP");
    assert_eq!(regs[0].choice_2, "");
    assert_eq!(regs[0].choice_3, "DEN_TWR");
    assert_eq!(regs[0].notes, "any");
    assert_eq!(regs[1].controller, "???");
    let sam_reg = event_registrations_extra(
        &vec![EventRegistration { id: 2, event_id: 1, cid: 6, choice_1: 0, choice_2: 0, choice_3: 0, notes: None }],
        &positions,
        &vec![Some(sam)],
    );
    assert_eq!(sam_reg[0].controller, "Sam Lee (??) - ");
    assert_eq!(sam_reg[0].notes, "");
}

#[test]
fn event_registration_and_visibility() {
    assert_eq!(registration_action(0, 0, 0), RegistrationAction::Withdraw);
    assert_eq!(
        registration_action(4, 0, 2),
        RegistrationAction::Upsert { choice_1: Some(4), choice_2: None, choice_3: Some(2) }
    );
    assert!(show_unpublished_events(Some("true"), true));
    assert!(!show_unpublished_events(Some("true"), false));
    assert!(!show_unpublished_events(Some("yes"), true));
    assert!(!show_unpublished_events(None, true));
    assert!(can_view_event(true, false));
    assert!(!can_view_event(false, false));
    assert!(can_view_event(false, true));
}

#[test]
fn imported_controllers() {
    assert_eq!(rating_from_abbreviation("C3"), ControllerRating::C3);
    assert_eq!(rating_from_abbreviation("ADM"), ControllerRating::ADM);
    assert_eq!(rating_from_abbreviation("XYZ"), ControllerRating::OBS);
    assert_eq!(rating_from_abbreviation("c3"), ControllerRating::OBS);
    for id in -1i8..=12 {
        let r = ControllerRating::from_id(id).unwrap();
        assert_eq!(rating_from_abbreviation(r.as_str()), r);
    }
    assert_eq!(stored_discord_id(""), None);
    assert_eq!(stored_discord_id("1234"), Some("1234".to_string()));
    let certs = vec![
        AdhCertification { display_name: "Ground".to_string(), value: "certified".to_string() },
        AdhCertification { display_name: "Tower".to_string(), value: "none".to_string() },
        AdhCertification { display_name: "Approach".to_string(), value: "solo".to_string() },
    ];
    let kept = certifications_to_store(&certs);
    assert_eq!(kept.iter().map(|c| c.display_name.as_str()).collect::<Vec<_>>(), vec!["Ground", "Approach"]);
}

#[test]
fn unreserved_redirects_are_not_encoded() {
    let mut config = Config::default();
    config.discord.auth.client_id = "9".to_string();
    config.discord.auth.redirect_uri = "zdv.example-auth_discord.v2~x".to_string();
    assert_eq!(
        get_oauth_link(&config),
        "https://discord.com/oauth2/authorize?client_id=9&response_type=code&redirect_uri=zdv.example-auth_discord.v2~x&scope=identify"
    );
}
