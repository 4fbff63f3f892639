use vzdv::config::{Config, ConfigStaffOverride};
use vzdv::sql::Controller;
use vzdv::{determine_staff_positions, position_in_facility_airspace, ControllerRating};

#[test]
fn lib_test_position_in_facility_airspace() {
    let mut config = Config::default();
    config.stats.position_prefixes.push("DEN".to_string());
    config.stats.position_suffixes.push("_TWR".to_string());

    assert!(position_in_facility_airspace(&config, "DEN_2_TWR"));
    assert!(!position_in_facility_airspace(&config, "SAN_GND"));
}

#[test]
fn mod_test_position_in_facility_airspace() {
    let mut config = Config::default();
    config.stats.position_prefixes.push("DEN".to_string());
    config.stats.position_suffixes.push("_TWR".to_string());

    assert!(position_in_facility_airspace(&config, "DEN_2_TWR"));
    assert!(!position_in_facility_airspace(&config, "SAN_GND"));
}

#[test]
fn airspace_needs_prefix_and_suffix() {
    let mut config = Config::default();
    assert!(!position_in_facility_airspace(&config, "DEN_TWR"));
    config.stats.position_prefixes.push("DEN".to_string());
    config.stats.position_prefixes.push("COS".to_string());
    config.stats.position_suffixes.push("_TWR".to_string());
    config.stats.position_suffixes.push("_CTR".to_string());
    assert!(position_in_facility_airspace(&config, "COS_CTR"));
    assert!(!position_in_facility_airspace(&config, "DEN_GND"));
    assert!(!position_in_facility_airspace(&config, "SLC_CTR"));
    // widening the configuration keeps positions in the airspace
    config.stats.position_suffixes.push("_GND".to_string());
    assert!(position_in_facility_airspace(&config, "COS_CTR"));
    assert!(position_in_facility_airspace(&config, "DEN_GND"));
}

#[test]
fn lib_test_determine_staff_positions_empty() {
    let mut controller = Controller::default();
    controller.cid = 123;
    let config = Config::default();

    assert!(determine_staff_positions(&controller, &config).is_empty());
}

#[test]
fn lib_test_determine_staff_positions_shared() {
    let mut controller = Controller::default();
    controller.cid = 123;
    controller.roles = "MTR".to_owned();
    let config = Config::default();

    assert_eq!(determine_staff_positions(&controller, &config), vec!["MTR"]);
}

#[test]
fn lib_test_determine_staff_positions_single() {
    let mut controller = Controller::default();
    controller.cid = 123;
    controller.roles = "FE".to_owned();
    let config = Config::default();

    assert_eq!(determine_staff_positions(&controller, &config), vec!["FE"]);
}

#[test]
fn lib_test_determine_staff_positions_single_assistant() {
    let mut controller = Controller::default();
    controller.cid = 123;
    controller.roles = "FE".to_owned();
    let mut config = Config::default();
    config.staff.overrides.push(ConfigStaffOverride {
        role: "FE".to_owned(),
        cid: 456,
    });

    assert_eq!(determine_staff_positions(&controller, &config), vec!["AFE"]);
}

#[test]
fn lib_test_determine_staff_positions_multiple() {
    let mut controller = Controller::default();
    controller.cid = 123;
    controller.roles = "FE,MTR".to_owned();
    let mut config = Config::default();
    config.staff.overrides.push(ConfigStaffOverride {
        role: "FE".to_owned(),
        cid: 456,
    });

    assert_eq!(
        determine_staff_positions(&controller, &config),
        vec!["AFE", "MTR"]
    );
}

#[test]
fn lib_test_determine_staff_positions_instructor() {
    let mut controller = Controller::default();
    controller.cid = 123;
    controller.rating = 10;
    controller.home_facility = "ZDV".to_owned();
    let config = Config::default();

    assert_eq!(determine_staff_positions(&controller, &config), vec!["INS"]);
}

#[test]
fn lib_test_determine_staff_positions_ingore() {
    let mut controller = Controller::default();
    controller.cid = 123;
    controller.roles = "FACCBT".to_owned();
    let config = Config::default();

    assert!(determine_staff_positions(&controller, &config).is_empty());
}

#[test]
fn mod_test_determine_staff_positions_empty() {
    let mut controller = Controller::default();
    controller.cid = 123;
    let config = Config::default();

    assert!(determine_staff_positions(&controller, &config).is_empty());
}

#[test]
fn mod_test_determine_staff_positions_shared() {
    let mut controller = Controller::default();
    controller.cid = 123;
    controller.roles = "MTR".to_owned();
    let config = Config::default();

    assert_eq!(determine_staff_positions(&controller, &config), vec!["MTR"]);
}

#[test]
fn mod_test_determine_staff_positions_single() {
    let mut controller = Controller::default();
    controller.cid = 123;
    controller.roles = "FE".to_owned();
    let config = Config::default();

    assert_eq!(determine_staff_positions(&controller, &config), vec!["FE"]);
}

#[test]
fn mod_test_determine_staff_positions_single_assistant() {
    let mut controller = Controller::default();
    controller.cid = 123;
    controller.roles = "FE".to_owned();
    let mut config = Config::default();
    config.staff.overrides.push(ConfigStaffOverride {
        role: "FE".to_owned(),
        cid: 456,
    });

    assert_eq!(determine_staff_positions(&controller, &config), vec!["AFE"]);
}

#[test]
fn mod_test_determine_staff_positions_multiple() {
    let mut controller = Controller::default();
    controller.cid = 123;
    controller.roles = "FE,MTR".to_owned();
    let mut config = Config::default();
    config.staff.overrides.push(ConfigStaffOverride {
        role: "FE".to_owned(),
        cid: 456,
    });

    assert_eq!(
        determine_staff_positions(&controller, &config),
        vec!["AFE", "MTR"]
    );
}

#[test]
fn mod_test_determine_staff_positions_ingore() {
    let mut controller = Controller::default();
    controller.cid = 123;
    controller.roles = "FACCBT".to_owned();
    let config = Config::default();

    assert!(determine_staff_positions(&controller, &config).is_empty());
}

#[test]
fn staff_positions_official_holder_and_instructor() {
    let mut controller = Controller::default();
    controller.cid = 456;
    controller.roles = "FE,,TA,".to_owned();
    controller.rating = 8;
    controller.home_facility = "ZDV".to_owned();
    let mut config = Config::default();
    config.staff.overrides.push(ConfigStaffOverride { role: "FE".to_owned(), cid: 456 });
    assert_eq!(
        determine_staff_positions(&controller, &config),
        vec!["FE", "", "TA", "INS"]
    );
    // visiting instructors are not listed as staff
    controller.home_facility = "ZLC".to_owned();
    assert_eq!(determine_staff_positions(&controller, &config), vec!["FE", "", "TA"]);
}

#[test]
fn rating_ids_and_names() {
    assert_eq!(ControllerRating::I3.as_id(), 10);
    assert_eq!(ControllerRating::INA.as_id(), -1);
    assert_eq!(ControllerRating::from_id(11), Some(ControllerRating::SUP));
    assert_eq!(ControllerRating::from_id(13), None);
    assert_eq!(Controller::rating_name(5), "C1");
    assert_eq!(Controller::rating_name(-2), "???");
    assert_eq!(ControllerRating::ADM.as_str(), "ADM");
    for id in -1i8..=12 {
        let r = ControllerRating::from_id(id).unwrap();
        assert_eq!(r.as_id(), id);
        assert_eq!(Controller::rating_name(id), r.as_str());
    }
}

// An instructor rating alone does not list a controller as an instructor:
// only controllers whose home facility is ZDV are.
#[test]
fn mod_test_determine_staff_positions_instructor() {
    let mut controller = Controller::default();
    controller.cid = 123;
    controller.rating = 10;
    let config = Config::default();

    assert!(determine_staff_positions(&controller, &config).is_empty());
    controller.home_facility = "ZDV".to_owned();
    assert_eq!(determine_staff_positions(&controller, &config), vec!["INS"]);
}
