use vzdv::vatusa::{
    add_visitor_url, controller_info_url, controller_names, controller_roles,
    facility_training_records, instructor_cids, new_training_record_url, removed_from_roster,
    roster_cids, roster_url, strip_training_notes, training_records_url, transfer_checklist_url,
    MembershipType, RosterMember, RosterMemberRole, RosterMemberVisiting, TrainingRecord,
};

fn member(cid: u32, first: &str, last: &str, roles: Vec<(&str, &str)>) -> RosterMember {
    RosterMember {
        cid,
        first_name: first.to_string(),
        last_name: last.to_string(),
        email: None,
        facility: "ZDV".to_string(),
        rating: 5,
        created_at: String::new(),
        updated_at: String::new(),
        flag_need_basic: false,
        flag_transfer_override: false,
        facility_join: String::new(),
        flag_home_controller: true,
        last_activity: String::new(),
        flag_broadcast_opted_in: None,
        flag_prevent_staff_assign: None,
        discord_id: None,
        last_cert_sync: String::new(),
        flag_name_privacy: false,
        last_competency_date: None,
        promotion_eligible: None,
        transfer_eligible: None,
        roles: roles
            .into_iter()
            .map(|(facility, role)| RosterMemberRole {
                id: 1,
                cid,
                facility: facility.to_string(),
                role: role.to_string(),
                created_at: String::new(),
            })
            .collect(),
        rating_short: "C1".to_string(),
        visiting_facilities: Some(vec![RosterMemberVisiting {
            id: 1,
            cid,
            facility: "ZLC".to_string(),
            created_at: String::new(),
            updated_at: String::new(),
        }]),
        is_mentor: false,
        is_sup_ins: false,
        last_promotion: None,
    }
}

fn record(id: u32, instructor: u32, facility: &str, notes: &str) -> TrainingRecord {
    TrainingRecord {
        id,
        student_id: 100,
        instructor_id: instructor,
        session_date: "2024-01-01".to_string(),
        facility_id: facility.to_string(),
        position: "DEN_TWR".to_string(),
        duration: "01:00".to_string(),
        notes: notes.to_string(),
    }
}

#[test]
fn vatusa_request_addresses() {
    assert_eq!(MembershipType::Both.as_str(), "both");
    assert_eq!(
        roster_url("ZDV", MembershipType::Home),
        "https://api.vatusa.net/facility/ZDV/roster/home"
    );
    assert_eq!(
        roster_url("ZLC", MembershipType::Visit),
        "https://api.vatusa.net/facility/ZLC/roster/visit"
    );
    assert_eq!(
        transfer_checklist_url(1234567),
        "https://api.vatusa.net/v2/user/1234567/transfer/checklist"
    );
    assert_eq!(controller_info_url(10), "https://api.vatusa.net/user/10");
    assert_eq!(
        add_visitor_url(987),
        "https://api.vatusa.net/v2/facility/ZDV/roster/manageVisitor/987"
    );
    assert_eq!(
        training_records_url(0),
        "https://api.vatusa.net/v2/user/0/training/records"
    );
    assert_eq!(
        new_training_record_url(55),
        "https://api.vatusa.net/v2/user/55/training/record"
    );
}

#[test]
fn controller_roles_keep_facility_roles_without_ins() {
    let m = member(
        1,
        "A",
        "B",
        vec![("ZDV", "MTR"), ("ZLC", "ATM"), ("ZDV", "INS"), ("ZDV", "FE")],
    );
    assert_eq!(controller_roles(&m, "ZDV"), "MTR,FE");
    assert_eq!(controller_roles(&m, "ZLC"), "ATM");
    assert_eq!(controller_roles(&m, "ZAB"), "");
}

#[test]
fn removed_controllers_are_those_off_the_roster() {
    let roster = vec![member(1, "A", "B", vec![]), member(3, "C", "D", vec![])];
    let current = roster_cids(&roster);
    assert_eq!(current, vec![1, 3]);
    let stored = vec![1, 2, 3, 4];
    assert_eq!(removed_from_roster(&current, &stored), vec![2, 4]);
    assert!(removed_from_roster(&current, &current).is_empty());
}

#[test]
fn training_records_of_the_facility_and_their_instructors() {
    let records = vec![
        record(1, 7, "ZDV", "a"),
        record(2, 8, "ZLC", "b"),
        record(3, 7, "ZDV", "c"),
        record(4, 9, "ZDV", "d"),
    ];
    let here = facility_training_records(&records);
    assert_eq!(here.iter().map(|r| r.id).collect::<Vec<_>>(), vec![1, 3, 4]);
    assert_eq!(instructor_cids(&here), vec![7, 9]);
    assert_eq!(instructor_cids(&records), vec![7, 8, 9]);
}

#[test]
fn training_notes_lose_their_tags() {
    let mut records = vec![
        record(1, 7, "ZDV", "<p>Good <b>session</b></p>"),
        record(2, 7, "ZDV", ""),
    ];
    strip_training_notes(&mut records);
    assert_eq!(records[0].notes, "Good session");
    assert_eq!(records[0].position, "DEN_TWR");
    assert_eq!(records[1].notes, "");
}

#[test]
fn controller_names_by_cid() {
    let members = vec![
        member(1, "Jane", "Doe", vec![]),
        member(2, "John", "Roe", vec![]),
        member(1, "Janet", "Doe", vec![]),
    ];
    let names = controller_names(&members);
    assert_eq!(names.len(), 2);
    assert_eq!(names[&1], "Janet Doe");
    assert_eq!(names[&2], "John Roe");
}
