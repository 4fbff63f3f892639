use vzdv::activity::{activity_report, session_month};
use vzdv::config::{Airport, Config, ConfigStaffOverride};
use vzdv::feedback::{feedback_form_controllers, feedback_submission_message, visitor_request_message};
use vzdv::flashed_messages::{FlashedMessage, FlashedMessageLevel, FlashedMessages};
use vzdv::homepage::{all_ceilings_fit_exec, count_flights, weather_report, weather_url};
use vzdv::aviation::{metar_ceiling_fits_exec, WeatherConditions};
use vzdv::resources::resources_page;
use vzdv::roster::roster_page;
use vzdv::site::{
    cache_entry_is_fresh, is_user_member_of, reject_if_not_in, AppErrorKind, CacheEntry, FormRejectionKind, UserInfo,
};
use vzdv::sql::{Activity, Certification, Controller, Resource};
use vzdv::staff::{generate_staff_outline, staff_page};
use vzdv::timestamps::{
    format_year_month_day_time, js_timestamp_to_utc, minutes_to_hm, nice_date, simple_date, DateTimeFields,
    FormTimeError,
};
use vzdv::vatusa::{new_training_record, training_record_location, training_record_submission};

fn controller(cid: u32, first: &str, last: &str, roles: &str, rating: i8) -> Controller {
    let mut c = Controller::default();
    c.cid = cid;
    c.first_name = first.to_string();
    c.last_name = last.to_string();
    c.roles = roles.to_string();
    c.rating = rating;
    c.home_facility = "ZDV".to_string();
    c.is_on_roster = true;
    c
}

fn activity(cid: u32, month: &str, minutes: u32) -> Activity {
    Activity {
        id: 0,
        cid,
        first_name: String::new(),
        last_name: String::new(),
        month: month.to_string(),
        minutes,
    }
}

#[test]
fn flashed_messages_drain_in_push_order() {
    let mut messages = FlashedMessages::new();
    messages.push(FlashedMessageLevel::Info, "first");
    messages.push(FlashedMessageLevel::Error, "second");
    let taken = messages.drain();
    assert_eq!(taken.len(), 2);
    assert_eq!(taken[0].message, "first");
    assert_eq!(taken[1].level, FlashedMessageLevel::Error);
    assert_eq!(taken[0].class, "alert alert-info");
    assert_eq!(taken[1].class, "alert alert-error");
    assert!(messages.drain().is_empty());
    let m = FlashedMessage::new(FlashedMessageLevel::Success, "ok");
    assert_eq!(FlashedMessageLevel::Success.as_str(), "success");
    assert_eq!(m.class(), "alert alert-success");
}

#[test]
fn cache_entries_and_error_answers() {
    let e = CacheEntry::new("page".to_string());
    assert_eq!(e.data, "page");
    assert!(cache_entry_is_fresh(59, 60));
    assert!(!cache_entry_is_fresh(60, 60));
    assert_eq!(AppErrorKind::Database.friendly_message(), "Issue accessing database");
    assert_eq!(AppErrorKind::Database.status_code(), 500);
    assert_eq!(
        AppErrorKind::FormExtractionRejection(FormRejectionKind::InvalidFormContentType).status_code(),
        415
    );
    assert_eq!(
        AppErrorKind::FormExtractionRejection(FormRejectionKind::FailedToDeserializeForm).status_code(),
        400
    );
}

#[test]
fn activity_report_orders_by_cid_and_ranks_months() {
    let controllers = vec![
        controller(30, "C", "Three", "", 5),
        controller(10, "A", "One", "", 5),
        controller(20, "B", "Two", "", 5),
    ];
    let acts = vec![
        activity(10, "2024-05", 100),
        activity(10, "2024-05", 50),
        activity(20, "2024-05", 120),
        activity(30, "2024-04", 200),
        activity(20, "2024-03", 30),
    ];
    let months = [
        "2024-05".to_string(),
        "2024-04".to_string(),
        "2024-03".to_string(),
        "2024-02".to_string(),
        "2024-01".to_string(),
    ];
    let report = activity_report(&controllers, &acts, &months);
    assert_eq!(report.iter().map(|l| l.cid).collect::<Vec<_>>(), vec![10, 20, 30]);
    assert_eq!(report[0].name, "A One");
    assert_eq!(report[0].months[0].value, 150);
    assert_eq!(report[0].months[0].position, Some(0));
    assert_eq!(report[1].months[0].position, Some(1));
    assert_eq!(report[2].months[0].position, Some(2));
    assert_eq!(report[2].months[1].position, Some(0));
    assert!(report[0].violation);
    assert!(report[1].violation);
    assert!(!report[2].violation);
    assert_eq!(report[1].months[2].value, 30);
}

#[test]
fn session_months_are_the_first_seven_bytes() {
    assert_eq!(session_month("2024-03-02T16:20:37"), Some("2024-03".to_string()));
    assert_eq!(session_month("2024-3"), None);
    assert_eq!(session_month("2024-0é"), None);
    assert_eq!(session_month("2024-é3"), Some("2024-é".to_string()));
    assert_eq!(session_month("2024-é"), Some("2024-é".to_string()));
}

#[test]
fn roster_lines_go_by_cid_with_certs() {
    let mut config = Config::default();
    config.staff.overrides.push(ConfigStaffOverride { role: "FE".to_string(), cid: 5 });
    let mut visitor = controller(9, "Vis", "Itor", "FE,MTR", 7);
    visitor.home_facility = "ZLC".to_string();
    visitor.operating_initials = Some("VI".to_string());
    let controllers = vec![visitor, controller(4, "Home", "Er", "", 42)];
    let certs = vec![
        Certification { id: 1, cid: 9, name: "DEN_TWR".to_string(), value: "Solo".to_string(), changed_on: 0, set_by: 1 },
        Certification { id: 2, cid: 4, name: "DEN_APP".to_string(), value: "Training".to_string(), changed_on: 0, set_by: 1 },
        Certification { id: 3, cid: 9, name: "DEN_CTR".to_string(), value: "Certified".to_string(), changed_on: 0, set_by: 1 },
    ];
    let roster = roster_page(&controllers, &certs, &config);
    assert_eq!(roster[0].cid, 4);
    assert_eq!(roster[0].rating, "");
    assert!(roster[0].is_home);
    assert_eq!(roster[0].operating_initials, "");
    assert_eq!(roster[0].certs.len(), 1);
    assert_eq!(roster[1].cid, 9);
    assert_eq!(roster[1].rating, "C3");
    assert!(!roster[1].is_home);
    assert_eq!(roster[1].roles, "AFE, MTR");
    assert_eq!(roster[1].operating_initials, "VI");
    assert_eq!(
        roster[1].certs.iter().map(|c| c.id).collect::<Vec<_>>(),
        vec![1, 3]
    );
}

#[test]
fn staff_page_lists_holders_in_order() {
    let mut config = Config::default();
    config.staff.email_domain = "zdvartcc.org".to_string();
    let outline = generate_staff_outline(&config);
    assert_eq!(outline.len(), 11);
    assert_eq!(outline[0].short, "ATM");
    assert_eq!(outline[0].email, Some("atm@zdvartcc.org".to_string()));
    assert_eq!(outline[6].short, "INS");
    assert_eq!(outline[6].email, None);
    let controllers = vec![
        controller(1, "A", "A", "ATM", 5),
        controller(2, "B", "B", "MTR,WM", 8),
    ];
    let page = staff_page(&config, &controllers);
    assert_eq!(page[0].controllers.len(), 1);
    assert_eq!(page[0].controllers[0].cid, 1);
    assert_eq!(page[5].short, "WM");
    assert_eq!(page[5].controllers[0].cid, 2);
    assert_eq!(page[6].controllers[0].cid, 2);
    assert_eq!(page[7].controllers[0].cid, 2);
    assert!(page[1].controllers.is_empty());
}

#[test]
fn resources_sorted_by_name_with_used_categories() {
    let res = |id: u32, cat: &str, name: &str| Resource {
        id,
        category: cat.to_string(),
        name: name.to_string(),
        file_name: None,
        link: None,
        updated: 0,
    };
    let resources = vec![res(1, "SOPs", "b"), res(2, "LOAs", "a"), res(3, "SOPs", "B"), res(4, "SOPs", "a")];
    let ordering = vec!["Policy".to_string(), "SOPs".to_string(), "LOAs".to_string()];
    let page = resources_page(&resources, &ordering);
    assert_eq!(page.resources.iter().map(|r| r.id).collect::<Vec<_>>(), vec![3, 2, 4, 1]);
    assert_eq!(page.categories, vec!["SOPs".to_string(), "LOAs".to_string()]);
}

#[test]
fn weather_brief_keeps_lines_that_parse() {
    let text = "KDEN 2SM OVC005\nKCOS 10SM SCT100\nKAPA OVCXX 3SM\n";
    assert!(all_ceilings_fit_exec(text));
    let weather = weather_report(text);
    assert_eq!(weather.len(), 2);
    assert_eq!(weather[0].name, "KDEN");
    assert_eq!(weather[0].conditions, WeatherConditions::LIFR);
    assert_eq!(weather[1].name, "KCOS");
    assert_eq!(weather[1].ceiling, 3456);
    assert_eq!(weather[1].conditions, WeatherConditions::VFR);
    assert!(!metar_ceiling_fits_exec("KDEN 10SM OVC700"));
    assert!(metar_ceiling_fits_exec("KDEN 10SM OVC655"));
    assert!(!all_ceilings_fit_exec("KDEN 10SM OVC700\n"));
    assert_eq!(
        weather_url(&vec!["KDEN".to_string(), "KCOS".to_string()]),
        "https://metar.vatsim.net/KDEN,KCOS"
    );
}

#[test]
fn flights_counted_within_from_and_to() {
    let airport = |code: &str| Airport {
        code: code.to_string(),
        name: String::new(),
        location: String::new(),
        towered: true,
        class: "C".to_string(),
    };
    let airports = vec![airport("KDEN"), airport("KCOS")];
    let plan = |d: &str, a: &str| Some((d.to_string(), a.to_string()));
    let plans = vec![
        plan("KDEN", "KCOS"),
        plan("KDEN", "KLAX"),
        plan("KSFO", "KCOS"),
        plan("KSFO", "KLAX"),
        None,
        plan("KCOS", "KCOS"),
    ];
    let flights = count_flights(&airports, &plans);
    assert_eq!((flights.within, flights.from, flights.to), (2, 1, 1));
}

#[test]
fn feedback_form_lists_controllers_by_name() {
    let controllers = vec![
        controller(1, "Zed", "Alpha", "", 5),
        controller(2, "Amy", "Zulu", "", 5),
        controller(3, "Amy", "Beta", "", 5),
    ];
    let choices = feedback_form_controllers(&controllers);
    assert_eq!(
        choices,
        vec![(3, "Amy Beta".to_string()), (2, "Amy Zulu".to_string()), (1, "Zed Alpha".to_string())]
    );
    assert_eq!(feedback_submission_message(true), (FlashedMessageLevel::Success, "Feedback submitted, thank you!"));
    assert_eq!(feedback_submission_message(false).0, FlashedMessageLevel::Error);
    assert_eq!(visitor_request_message(false).1, "You must be logged in to submit a visitor request.");
}

#[test]
fn form_times_and_durations() {
    assert_eq!(js_timestamp_to_utc("2024-07-04T12:00", "Mars/Olympus"), Err(FormTimeError::Timezone));
    assert_eq!(js_timestamp_to_utc("July 4th", "America/Denver"), Err(FormTimeError::Format));
    let t = js_timestamp_to_utc("2024-07-04T12:00", "America/Denver").unwrap();
    assert_eq!(t, fields(2024, 7, 4, 18, 0, 0, 0));
    assert_eq!(
        js_timestamp_to_utc("2024-01-15T23:30", "America/Denver"),
        Ok(fields(2024, 1, 16, 6, 30, 0, 0))
    );
    assert_eq!(js_timestamp_to_utc("2024-03-10T02:30", "America/Denver"), Err(FormTimeError::NotSingle));
    assert_eq!(minutes_to_hm(125), "2h5m");
    assert_eq!(minutes_to_hm(60), "1h0m");
    assert_eq!(minutes_to_hm(0), "");
}

fn fields(year: i32, month: u32, day: u32, hour: u32, minute: u32, second: u32, nanosecond: u32) -> DateTimeFields {
    DateTimeFields { year, month, day, hour, minute, second, nanosecond }
}

#[test]
fn dates_written_as_text() {
    assert_eq!(format_year_month_day_time(fields(2024, 7, 4, 8, 5, 9, 0)), "2024-07-04 08:05");
    assert_eq!(format_year_month_day_time(fields(987, 1, 2, 0, 0, 0, 0)), "0987-01-02 00:00");
    assert_eq!(format_year_month_day_time(fields(-44, 3, 15, 0, 0, 0, 0)), "-0044-03-15 00:00");
    assert_eq!(format_year_month_day_time(fields(12345, 6, 7, 1, 2, 0, 0)), "+12345-06-07 01:02");
    assert_eq!(nice_date("2024-07-04T08:05:09Z"), Some("07/04/2024 08:05:09".to_string()));
    assert_eq!(simple_date("0987-01-02T00:00:00Z"), Some("01/02/0987".to_string()));
}

#[test]
fn template_dates() {
    assert_eq!(simple_date("2024-07-04T18:30:05+00:00"), Some("07/04/2024".to_string()));
    assert_eq!(nice_date("2024-07-04T18:30:05-06:00"), Some("07/04/2024 18:30:05".to_string()));
    assert_eq!(simple_date("07/04/2024"), None);
    assert_eq!(nice_date(""), None);
    assert_eq!(nice_date("1999-12-31T23:59:60Z"), Some("12/31/1999 23:59:60".to_string()));
}

#[test]
fn new_training_records_for_submission() {
    let date = js_timestamp_to_utc("2024-07-04T12:00", "America/Denver").unwrap();
    let record = new_training_record(
        1234567,
        date,
        "DEN_TWR".to_string(),
        "01:30".to_string(),
        training_record_location::LIVE_OTS,
        "passed".to_string(),
    );
    assert_eq!(record.instructor_id, "1234567");
    let submission = training_record_submission(&record);
    assert_eq!(submission.session_date, "2024-07-04 18:00");
    assert_eq!(submission.instructor_id, "1234567");
    assert_eq!(submission.location, 1);
    assert_eq!(submission.notes, "passed");
}

#[test]
fn staff_pages_refuse_by_redirecting_home() {
    let user = Some(UserInfo {
        cid: 1234567,
        first_name: "Amy".to_string(),
        last_name: "Beta".to_string(),
        is_some_staff: true,
        is_training_staff: false,
        is_event_staff: false,
        is_admin: false,
    });
    assert!(is_user_member_of(&user, true));
    assert!(!is_user_member_of(&user, false));
    assert!(!is_user_member_of(&None, true));
    assert_eq!(reject_if_not_in(&user, true), None);
    assert_eq!(reject_if_not_in(&user, false), Some("/".to_string()));
    assert_eq!(reject_if_not_in(&None, true), Some("/".to_string()));
}
