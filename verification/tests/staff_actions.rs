use vzdv::admin::{
    already_visiting, feedback_post, log_line_count, log_tail_exec, review_feedback,
    visitor_decision, FeedbackReview,
};
use vzdv::config::Config;
use vzdv::controller::{
    cert_changes, certification_values, check_initials, initials_to_store, new_roles,
    roles_to_set, staff_note_displays, CertChange, InitialsError,
};
use vzdv::email::{email_content, visitor_accepted, visitor_denied, visitor_removed, EmailError};
use vzdv::flashed_messages::FlashedMessageLevel;
use vzdv::ordering::{sort_strings, str_less_exec};
use vzdv::sql::{Certification, Controller, Feedback, StaffNote};
use vzdv::vatusa::{RosterMember, RosterMemberVisiting};

fn controller(cid: u32, first: &str, last: &str, roles: &str) -> Controller {
    let mut c = Controller::default();
    c.cid = cid;
    c.first_name = first.to_string();
    c.last_name = last.to_string();
    c.roles = roles.to_string();
    c
}

fn cert(id: u32, name: &str, value: &str) -> Certification {
    Certification { id, cid: 1, name: name.to_string(), value: value.to_string(), changed_on: 0, set_by: 0 }
}

fn strings(v: &[&str]) -> Vec<String> {
    v.iter().map(|s| s.to_string()).collect()
}

#[test]
fn settable_roles_by_position() {
    assert!(roles_to_set(&None, true).is_empty());
    let fe = controller(1, "A", "B", "FE");
    assert_eq!(roles_to_set(&Some(fe), true), strings(&["AFE"]));
    let ec = controller(1, "A", "B", "EC");
    assert_eq!(roles_to_set(&Some(ec), false), strings(&["AEC"]));
    let admin = controller(1, "A", "B", "ATM");
    let all = roles_to_set(&Some(admin.clone()), true);
    assert_eq!(
        all,
        strings(&["ATM", "DATM", "TA", "FE", "EC", "WM", "AFE", "AEC", "AWM", "INS", "MTR"])
    );
    assert!(roles_to_set(&Some(admin), false).is_empty());
    // roles on the record are read one per line
    let both = controller(1, "A", "B", "WM\nFE");
    assert_eq!(roles_to_set(&Some(both), true), strings(&["AFE"]));
    assert_eq!(
        sort_strings(&all),
        strings(&["AEC", "AFE", "ATM", "AWM", "DATM", "EC", "FE", "INS", "MTR", "TA", "WM"])
    );
}

#[test]
fn certification_list_defaults_to_none() {
    let configured = strings(&["DEN_GND", "DEN_TWR"]);
    let stored = vec![cert(1, "DEN_TWR", "Solo"), cert(2, "DEN_TWR", "Certified")];
    let list = certification_values(&configured, &stored);
    assert_eq!(list.len(), 2);
    assert_eq!((list[0].name.as_str(), list[0].value.as_str()), ("DEN_GND", "None"));
    assert_eq!((list[1].name.as_str(), list[1].value.as_str()), ("DEN_TWR", "Solo"));
}

#[test]
fn staff_notes_show_their_author() {
    let notes = vec![
        StaffNote { id: 1, cid: 50, by: 7, date: 10, comment: "good".to_string() },
        StaffNote { id: 2, cid: 50, by: 8, date: 11, comment: "hmm".to_string() },
    ];
    let names = vec![(7, "Jane".to_string(), "Doe".to_string())];
    let shown = staff_note_displays(&notes, &names);
    assert_eq!(shown[0].by, "Jane Doe (7)");
    assert_eq!(shown[1].by, "50?");
    assert_eq!(shown[1].by_cid, 8);
    assert_eq!(shown[1].comment, "hmm");
}

#[test]
fn setting_roles_keeps_what_the_user_cannot_set() {
    let can_set = strings(&["AFE"]);
    assert_eq!(new_roles("FE,MTR,AFE", &can_set, &strings(&[])), "FE,MTR");
    assert_eq!(new_roles("MTR", &can_set, &strings(&["AFE", "ATM"])), "MTR,AFE");
    assert_eq!(new_roles("AFE,MTR", &can_set, &strings(&["AFE"])), "AFE,MTR");
    assert_eq!(new_roles("", &can_set, &strings(&["AFE", "AFE"])), "AFE");
}

#[test]
fn certification_form_updates_or_creates() {
    let stored = vec![cert(4, "DEN_TWR", "Solo")];
    let form = vec![
        ("DEN_TWR".to_string(), "Certified".to_string()),
        ("DEN_APP".to_string(), "Training".to_string()),
    ];
    assert_eq!(
        cert_changes(&stored, &form),
        vec![
            CertChange::Update { id: 4, value: "Certified".to_string() },
            CertChange::Create { name: "DEN_APP".to_string(), value: "Training".to_string() },
        ]
    );
}

#[test]
fn operating_initials_are_upper_cased_and_unique() {
    let in_use = strings(&["AB", "CD"]);
    assert_eq!(initials_to_store("xy", &in_use), Ok("XY".to_string()));
    assert_eq!(initials_to_store("ab", &in_use), Err(InitialsError::InUse));
    assert_eq!(initials_to_store("", &in_use), Ok(String::new()));
    assert_eq!(check_initials("CD", &in_use), Err(InitialsError::InUse));
}

#[test]
fn feedback_actions() {
    assert_eq!(review_feedback(false, "Archive"), FeedbackReview::NotFound);
    assert_eq!(
        FeedbackReview::NotFound.message(),
        Some((FlashedMessageLevel::Error, "Feedback not found"))
    );
    let archive = review_feedback(true, "Archive");
    assert_eq!(archive, FeedbackReview::Archive);
    assert_eq!(archive.stored(), Some(("archive", false)));
    assert_eq!(archive.message(), Some((FlashedMessageLevel::Success, "Feedback archived")));
    let post = review_feedback(true, "Post to Discord");
    assert_eq!(post.stored(), Some(("post", true)));
    assert_eq!(post.message(), Some((FlashedMessageLevel::Success, "Feedback shared")));
    let delete = review_feedback(true, "Delete");
    assert_eq!(delete.stored(), None);
    assert_eq!(delete.message(), Some((FlashedMessageLevel::Success, "Feedback deleted")));
    assert_eq!(review_feedback(true, "archive"), FeedbackReview::Nothing);
    assert_eq!(FeedbackReview::Nothing.message(), None);
    let mut fb = Feedback::default();
    fb.position = "DEN_TWR".to_string();
    fb.rating = "excellent".to_string();
    fb.comments = "great".to_string();
    let shared = feedback_post(&Some(controller(1, "Jane", "Doe", "")), &fb);
    assert_eq!(shared.controller, "Jane Doe");
    assert_eq!(shared.rating, "excellent");
    assert_eq!(feedback_post(&None, &fb).controller, "");
}

#[test]
fn logs_page_lines() {
    assert_eq!(log_line_count(None), 100);
    assert_eq!(log_line_count(Some("25")), 25);
    assert_eq!(log_line_count(Some("+7")), 7);
    assert_eq!(log_line_count(Some("-1")), 100);
    assert_eq!(log_line_count(Some("lots")), 100);
    let newest_first = strings(&["c", "b", "a"]);
    assert_eq!(log_tail_exec(&newest_first, 2), "b<br>c");
    assert_eq!(log_tail_exec(&newest_first, 10), "a<br>b<br>c");
    assert_eq!(log_tail_exec(&newest_first, 0), "");
}

fn applicant(cid: u32, visiting: Option<Vec<&str>>) -> RosterMember {
    RosterMember {
        cid,
        first_name: String::new(),
        last_name: String::new(),
        email: None,
        facility: "ZAB".to_string(),
        rating: 5,
        created_at: String::new(),
        updated_at: String::new(),
        flag_need_basic: false,
        flag_transfer_override: false,
        facility_join: String::new(),
        flag_home_controller: true,
        last_activity: String::new(),
        flag_broadcast_opted_in: None,
        flag_prevent_staff_assign: None,
        discord_id: None,
        last_cert_sync: String::new(),
        flag_name_privacy: false,
        last_competency_date: None,
        promotion_eligible: None,
        transfer_eligible: None,
        roles: Vec::new(),
        rating_short: "C1".to_string(),
        visiting_facilities: visiting.map(|v| {
            v.iter()
                .map(|f| RosterMemberVisiting {
                    id: 0,
                    cid,
                    facility: f.to_string(),
                    created_at: String::new(),
                    updated_at: String::new(),
                })
                .collect()
        }),
        is_mentor: false,
        is_sup_ins: false,
        last_promotion: None,
    }
}

#[test]
fn visitor_applications_and_decisions() {
    let infos = vec![applicant(1, Some(vec!["ZLC", "ZAB"])), applicant(2, None)];
    let m = already_visiting(&vec![1, 2, 3], &infos);
    assert_eq!(m.len(), 2);
    assert_eq!(m[&1], "ZLC, ZAB");
    assert_eq!(m[&2], "");
    assert!(!m.contains_key(&3));

    let d = visitor_decision("accept", true);
    assert!(d.add_to_roster);
    assert_eq!(d.email_template, Some("visitor_accepted".to_string()));
    assert_eq!(
        d.message.as_deref(),
        Some("Visitor request accepted and the controller was emailed of the decision.")
    );
    let d = visitor_decision("deny", false);
    assert!(!d.add_to_roster);
    assert_eq!(d.email_template, None);
    assert_eq!(
        d.message.as_deref(),
        Some("Visitor request denied, but their email could not be determined so no email was sent.")
    );
    let d = visitor_decision("ignore", true);
    assert!(!d.add_to_roster && d.email_template.is_none() && d.message.is_none());
}

#[test]
fn emails_are_signed_by_the_managers() {
    let mut config = Config::default();
    config.email.visitor_accepted_template.subject = "Welcome".to_string();
    config.email.visitor_accepted_template.body =
        "Hi {{ recipient_name }}|{{ atm }}|{{ datm }}".to_string();
    config.email.visitor_denied_template.body = "{{ broken".to_string();
    let managers = vec![
        controller(1, "Dee", "Puty", "DATM"),
        controller(2, "Adam", "Manager", "ATM,MTR"),
    ];
    let email = email_content(&config, &managers, "Sam", "visitor_accepted").unwrap();
    assert_eq!(email.subject, "Welcome");
    assert_eq!(email.body, "Hi Sam|Adam Manager, ATM|Dee Puty, DATM");
    assert_eq!(
        email_content(&config, &managers, "Sam", "visitor_left").unwrap_err(),
        EmailError::UnknownTemplate("visitor_left".to_string())
    );
    assert_eq!(
        email_content(&config, &managers, "Sam", "visitor_denied").unwrap_err(),
        EmailError::Render
    );
    let unsigned = email_content(&config, &Vec::new(), "Sam", "visitor_accepted").unwrap();
    assert_eq!(unsigned.body, "Hi Sam||");
    assert_eq!(visitor_accepted(), "visitor_accepted");
    assert_eq!(visitor_denied(), "visitor_denied");
    assert_eq!(visitor_removed(), "visitor_removed");
}

#[test]
fn names_compare_as_str_does() {
    let c = |s: &str| s.chars().collect::<Vec<char>>();
    assert!(str_less_exec(&c("ab"), &c("b")));
    assert!(str_less_exec(&c("a"), &c("ab")));
    assert!(str_less_exec(&c("Z"), &c("a")));
    assert!(!str_less_exec(&c("ab"), &c("ab")));
    assert!(!str_less_exec(&c("b"), &c("ab")));
}

#[test]
fn decimal_numbers_read_back() {
    for n in [0u64, 7, 10, 99, 100, 12345, u64::MAX] {
        assert_eq!(log_line_count(Some(&n.to_string())), n);
    }
    assert_eq!(log_line_count(Some("18446744073709551616")), 100);
    assert_eq!(log_line_count(Some("")), 100);
    assert_eq!(log_line_count(Some("+")), 100);
}
