use vzdv::aviation::{checked_parse_metar, parse_metar, MetarError, WeatherConditions};
use vzdv::homepage::checked_weather_report;

#[test]
fn aviation_test_parse_metar() {
    let ret = parse_metar("KDEN 030253Z 22013KT 10SM SCT100 BKN160 13/M12 A2943 RMK AO2 PK WND 21036/0211 SLP924 T01331117 58005").unwrap();
    assert_eq!(ret.name, "KDEN");
    assert_eq!(ret.conditions, WeatherConditions::VFR);

    let ret = parse_metar("KDEN 2SM BNK005").unwrap();
    assert_eq!(ret.conditions, WeatherConditions::IFR);

    let ret = parse_metar("KDEN 4SM OVC020").unwrap();
    assert_eq!(ret.conditions, WeatherConditions::MVFR);

    let ret = parse_metar("KDEN 1/2SM OVC001").unwrap();
    assert_eq!(ret.conditions, WeatherConditions::LIFR);
}

#[test]
fn lib_test_parse_metar() {
    let ret = parse_metar("KDEN 030253Z 22013KT 10SM SCT100 BKN160 13/M12 A2943 RMK AO2 PK WND 21036/0211 SLP924 T01331117 58005").unwrap();
    assert_eq!(ret.name, "KDEN");
    assert_eq!(ret.conditions, WeatherConditions::VFR);

    let ret = parse_metar("KDEN 2SM BNK005").unwrap();
    assert_eq!(ret.conditions, WeatherConditions::IFR);

    let ret = parse_metar("KDEN 4SM OVC020").unwrap();
    assert_eq!(ret.conditions, WeatherConditions::MVFR);

    let ret = parse_metar("KDEN 1/2SM OVC001").unwrap();
    assert_eq!(ret.conditions, WeatherConditions::LIFR);
}

#[test]
fn mod_test_parse_metar() {
    let ret = parse_metar("KDEN 030253Z 22013KT 10SM SCT100 BKN160 13/M12 A2943 RMK AO2 PK WND 21036/0211 SLP924 T01331117 58005").unwrap();
    assert_eq!(ret.name, "KDEN");
    assert_eq!(ret.conditions, WeatherConditions::VFR);

    let ret = parse_metar("KDEN 2SM BNK005").unwrap();
    assert_eq!(ret.conditions, WeatherConditions::IFR);

    let ret = parse_metar("KDEN 4SM OVC020").unwrap();
    assert_eq!(ret.conditions, WeatherConditions::MVFR);

    let ret = parse_metar("KDEN 1/2SM OVC001").unwrap();
    assert_eq!(ret.conditions, WeatherConditions::LIFR);
}

#[test]
fn parse_metar_exact_values() {
    let line = "KDEN 030253Z 22013KT 10SM SCT100 BKN160 13/M12";
    let ret = parse_metar(line).unwrap();
    assert_eq!(ret.visibility, 10);
    assert_eq!(ret.ceiling, 16_000);
    assert_eq!(ret.raw, line);

    // no broken or overcast layer: the default ceiling
    let ret = parse_metar("KCOS 7SM FEW050").unwrap();
    assert_eq!(ret.ceiling, 3_456);
    assert_eq!(ret.visibility, 7);
    assert_eq!(ret.conditions, WeatherConditions::VFR);

    // the first broken/overcast group decides the ceiling
    let ret = parse_metar("KASE 3SM OVC012 BKN002").unwrap();
    assert_eq!(ret.ceiling, 1_200);
    assert_eq!(ret.conditions, WeatherConditions::MVFR);

    // a leading plus sign is accepted by the number parser
    let ret = parse_metar("KAPA +6SM").unwrap();
    assert_eq!(ret.visibility, 6);
}

#[test]
fn parse_metar_errors() {
    assert_eq!(parse_metar("KDEN BKN160").unwrap_err(), MetarError::VisibilityMissing);
    assert_eq!(parse_metar("KDEN PSM BKN160").unwrap_err(), MetarError::VisibilityNotNumeric);
    assert_eq!(parse_metar("KDEN 10SM BKNXYZ").unwrap_err(), MetarError::CeilingNotNumeric);
    assert_eq!(parse_metar("").unwrap_err(), MetarError::VisibilityMissing);
    // the ceiling is checked before the visibility
    assert_eq!(parse_metar("KDEN OVC").unwrap_err(), MetarError::CeilingNotNumeric);
}

#[test]
fn flight_conditions_monotonic_example() {
    let worse = parse_metar("KDEN 2SM OVC004").unwrap();
    let better = parse_metar("KDEN 9SM OVC040").unwrap();
    assert_eq!(worse.conditions, WeatherConditions::LIFR);
    assert_eq!(better.conditions, WeatherConditions::VFR);
}

#[test]
fn metar_ceilings_that_do_not_fit_are_refused() {
    assert!(checked_parse_metar("KDEN 10SM OVC700").is_none());
    let ok = checked_parse_metar("KDEN 4SM OVC020").unwrap().unwrap();
    assert_eq!(ok.ceiling, 2000);
    assert_eq!(ok.conditions, WeatherConditions::MVFR);
    assert!(matches!(checked_parse_metar("KDEN OVC020"), Some(Err(MetarError::VisibilityMissing))));
    assert!(checked_weather_report("KDEN 10SM CLR\nKCOS 10SM OVC700\n").is_none());
    let report = checked_weather_report("KDEN 10SM CLR\nKCOS 4SM OVC020\n").unwrap();
    assert_eq!(report.len(), 2);
    assert_eq!(report[1].name, "KCOS");
    assert_eq!(report[1].conditions, WeatherConditions::MVFR);
}
