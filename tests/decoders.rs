use metar_lib::{Error, Metar, ObservationTime, ParsedMetar, StationType, Wind};

const LINE: &str = "KSFO 160456Z 27024G33KT 10SM FEW009 SCT200 15/10 A2999 RMK AO2";

#[test]
fn signed_degrees() {
    assert_eq!(ParsedMetar::parse_temp("M06").unwrap(), -6);
    assert_eq!(ParsedMetar::parse_temp("06").unwrap(), 6);
    assert_eq!(ParsedMetar::parse_dew("M06").unwrap(), -6);
    assert_eq!(ParsedMetar::parse_dew("06").unwrap(), 6);
    assert_eq!(ParsedMetar::parse_temp("00").unwrap(), 0);
}

#[test]
fn degrees_rejects_malformed() {
    match ParsedMetar::parse_temp("-6") {
        Err(Error::Field(field, raw)) => {
            assert_eq!(field, "temperature");
            assert_eq!(raw, "-6");
        }
        other => panic!("unexpected {:?}", other),
    }
    match ParsedMetar::parse_dew("M6") {
        Err(Error::Field(field, _)) => assert_eq!(field, "dew point"),
        other => panic!("unexpected {:?}", other),
    }
}

#[test]
fn visibility_display() {
    assert_eq!(ParsedMetar::parse_vis("10SM").unwrap(), "10");
    assert_eq!(ParsedMetar::parse_vis("1/2SM").unwrap(), "1/2");
    assert_eq!(ParsedMetar::parse_vis("1 1/2SM").unwrap(), "1 1/2");
    assert_eq!(ParsedMetar::parse_vis("M1/4SM").unwrap(), "< 1/4");
    assert_eq!(ParsedMetar::parse_vis("9999").unwrap(), "9999");
    assert_eq!(ParsedMetar::parse_vis("5/16SM").unwrap(), "5/16");
    assert!(matches!(ParsedMetar::parse_vis("10KM"), Err(Error::Field(_, _))));
    assert!(matches!(ParsedMetar::parse_vis(""), Err(Error::Field(_, _))));
}

#[test]
fn metric_visibility_in_a_line() {
    let metar =
        ParsedMetar::parse_data_at("KSFO 160456Z 27024KT 9999 FEW009 15/10 A2999", 2024, 10)
            .unwrap();
    assert_eq!(metar.vis, "9999");
    assert_eq!(metar.clouds, vec!["FEW009"]);
}

#[test]
fn wind_shapes() {
    assert_eq!(
        ParsedMetar::parse_wind("27024G33KT").unwrap(),
        Wind { direction: 270, speed: 24, gust_speed: 33, variable_speed: 0 }
    );
    assert_eq!(
        ParsedMetar::parse_wind("VRB03KT").unwrap(),
        Wind { direction: 0, speed: 0, gust_speed: 0, variable_speed: 3 }
    );
    assert_eq!(ParsedMetar::parse_wind("00000KT").unwrap(), Wind::new());
    assert_eq!(
        ParsedMetar::parse_wind("18005KT").unwrap(),
        Wind { direction: 180, speed: 5, gust_speed: 0, variable_speed: 0 }
    );
    assert!(matches!(ParsedMetar::parse_wind("270KT"), Err(Error::Field(_, _))));
}

#[test]
fn wind_variation_pair() {
    assert_eq!(ParsedMetar::parse_wind_variation("280V300").unwrap(), (280, 300));
    assert!(ParsedMetar::parse_wind_variation("280-300").is_err());
}

#[test]
fn altimeter_setting() {
    assert_eq!(ParsedMetar::parse_alt("A2999").unwrap(), 2999);
    assert_eq!(ParsedMetar::parse_alt("A3012").unwrap(), 3012);
    assert!(matches!(ParsedMetar::parse_alt("Q1013"), Err(Error::Field(_, _))));
}

#[test]
fn station_type_words() {
    assert_eq!(ParsedMetar::parse_station_type("AUTO"), StationType::Automated);
    assert_eq!(ParsedMetar::parse_station_type("COR"), StationType::Corrected);
    assert_eq!(ParsedMetar::parse_station_type("RTD"), StationType::Unspecified);
}

#[test]
fn time_in_given_month() {
    assert_eq!(
        ParsedMetar::parse_time("160456Z", 2024, 10).unwrap(),
        ObservationTime { year: 2024, month: 10, day: 16, hour: 4, minute: 56 }
    );
    assert!(ParsedMetar::parse_time("290000Z", 2024, 2).is_ok());
    assert!(ParsedMetar::parse_time("290000Z", 2023, 2).is_err());
    assert!(ParsedMetar::parse_time("310000Z", 2024, 4).is_err());
    assert!(ParsedMetar::parse_time("162400Z", 2024, 10).is_err());
    assert!(ParsedMetar::parse_time("160460Z", 2024, 10).is_err());
    assert!(ParsedMetar::parse_time("000000Z", 2024, 10).is_err());
}

#[test]
fn weather_cloud_split() {
    let (weather, clouds) = ParsedMetar::parse_weather("BR TSRA FEW009 SCT200");
    assert_eq!(weather, vec!["BR", "TSRA"]);
    assert_eq!(clouds, vec!["FEW009", "SCT200"]);
    let (weather, clouds) = ParsedMetar::parse_weather("CAVOK");
    assert!(weather.is_empty());
    assert_eq!(clouds, vec!["CAVOK"]);
}

#[test]
fn weather_without_clouds() {
    let (weather, clouds) = ParsedMetar::parse_weather("BR HZ");
    assert_eq!(weather, vec!["BR", "HZ"]);
    assert!(clouds.is_empty());
    let metar = ParsedMetar::parse_data_at("KSFO 160456Z 27024KT 10SM BR 15/10", 2024, 10).unwrap();
    assert_eq!(metar.weather, vec!["BR"]);
    assert!(metar.clouds.is_empty());
}

#[test]
fn remarks_words() {
    assert_eq!(ParsedMetar::parse_remarks("RMK AO2"), vec!["AO2"]);
    assert_eq!(ParsedMetar::parse_remarks("RMK AO2 SLP132"), vec!["AO2", "SLP132"]);
    assert!(ParsedMetar::parse_remarks("RMK").is_empty());
    let metar = ParsedMetar::parse_data_at("KSFO 160456Z 27024KT 10SM CLR 15/10", 2024, 10).unwrap();
    assert!(metar.remarks.is_empty());
}

#[test]
fn unknown_station_type_is_unspecified() {
    let metar = ParsedMetar::parse_data_at(
        "KSFO 160456Z RTD 27024G33KT 10SM FEW009 SCT200 15/10 A2999 RMK AO2",
        2024,
        10,
    )
    .unwrap();
    assert_eq!(metar.station_type, StationType::Unspecified);
}

#[test]
fn end_to_end() {
    let metar = ParsedMetar::parse_data_at(LINE, 2024, 10).unwrap();
    assert_eq!(metar.station, "KSFO");
    assert_eq!(
        metar.time,
        ObservationTime { year: 2024, month: 10, day: 16, hour: 4, minute: 56 }
    );
    assert_eq!(metar.wind, Wind { direction: 270, speed: 24, gust_speed: 33, variable_speed: 0 });
    assert_eq!(metar.vis, "10");
    assert_eq!(metar.clouds, vec!["FEW009", "SCT200"]);
    assert!(metar.weather.is_empty());
    assert_eq!(metar.temp, 15);
    assert_eq!(metar.dew, 10);
    assert_eq!(metar.alt, Some(2999));
    assert_eq!(metar.remarks, vec!["AO2"]);
}

#[test]
fn same_line_same_report() {
    let a = ParsedMetar::parse_data_at(LINE, 2024, 10).unwrap();
    let b = ParsedMetar::parse_data_at(LINE, 2024, 10).unwrap();
    assert_eq!(a, b);
}

#[test]
fn ungrammatical_lines() {
    for line in [
        "",
        "hello world",
        "KSFO 160456Z 27024G33KT 10SM FEW009 SCT200",
        "KSF 160456Z 27024G33KT 10SM FEW009 15/10",
        "KSFO 1604Z 27024G33KT 10SM FEW009 15/10",
        "KSFO 160456Z 27024G33KT 10SM FEW009 15/10 A2999 AO2",
    ] {
        match ParsedMetar::parse_data_at(line, 2024, 10) {
            Err(Error::Invalid(message)) => assert_eq!(message, "Unable to parse METAR."),
            other => panic!("unexpected {:?} for {:?}", other, line),
        }
    }
}

#[test]
fn impossible_time_is_a_field_error() {
    match ParsedMetar::parse_data_at("KSFO 320456Z 27024KT 10SM CLR 15/10", 2024, 10) {
        Err(Error::Field(field, raw)) => {
            assert_eq!(field, "time");
            assert_eq!(raw, "320456Z");
        }
        other => panic!("unexpected {:?}", other),
    }
}

#[test]
fn station_codes() {
    assert_eq!(Metar::check_code("ksfo").unwrap(), "KSFO");
    assert_eq!(Metar::check_code("KJFK").unwrap(), "KJFK");
    match Metar::check_code("egll") {
        Err(Error::Invalid(message)) => assert_eq!(message, "U.S. METARs only."),
        other => panic!("unexpected {:?}", other),
    }
    match Metar::check_code("ksf") {
        Err(Error::Invalid(message)) => assert_eq!(message, "METAR not valid."),
        other => panic!("unexpected {:?}", other),
    }
}

#[test]
fn station_code_length_in_bytes() {
    assert_eq!(Metar::check_code("KÉA").unwrap(), "KÉA");
    match Metar::check_code("KABÉ") {
        Err(Error::Invalid(message)) => assert_eq!(message, "METAR not valid."),
        other => panic!("unexpected {:?}", other),
    }
}

#[test]
fn feed_line_selection() {
    let feed = format!("2024/10/16 04:56\n{}\n", LINE);
    assert_eq!(Metar::split_data("KSFO", &feed).as_deref(), Some(LINE));
    assert_eq!(Metar::split_data("KJFK", &feed), None);
}

#[test]
fn feed_decoding() {
    let feed = format!("2024/10/16 04:56\n{}\n", LINE);
    let metar = Metar::from_feed_at("KSFO", &feed, 2024, 10).unwrap();
    assert_eq!(metar.text(), LINE);
    assert_eq!(metar.data.station, "KSFO");
    assert!(Metar::from_feed("KSFO", &feed).is_ok());
    let missing = "<html>The requested URL was not found on this server.</html>";
    match Metar::from_feed_at("KSFO", missing, 2024, 10) {
        Err(Error::NotFound(message)) => assert_eq!(message, "METAR not found."),
        other => panic!("unexpected {:?}", other),
    }
    let impossible = "KSFO 310456Z 27024KT 10SM CLR 15/10";
    match Metar::from_feed_at("KSFO", impossible, 2024, 4) {
        Err(Error::Field(field, raw)) => {
            assert_eq!(field, "time");
            assert_eq!(raw, "310456Z");
        }
        other => panic!("unexpected {:?}", other),
    }
    assert!(matches!(Metar::from_feed_at("KJFK", &feed, 2024, 10), Err(Error::NotFound(_))));
}

#[test]
fn error_messages() {
    assert_eq!(Error::Invalid("bad".to_string()).message(), "bad");
    assert_eq!(
        Error::Field("time".to_string(), "320456Z".to_string()).message(),
        "invalid time: 320456Z"
    );
}
