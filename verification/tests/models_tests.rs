use ecad_processor::error::ProcessingError;
use ecad_processor::models::{
    ConsolidatedRecord, ConsolidatedRecordBuilder, DataQuality, Date, PhysicalValidity,
    QualityFlag, StationMetadata, TemperatureRecord, TemperatureSet, WeatherRecord,
};
use ecad_processor::utils::coordinates::Coordinate;

fn date() -> Date {
    Date::from_ymd_opt(2023, 7, 15).unwrap()
}

fn latitude() -> Coordinate {
    Coordinate::from_micro_degrees(51_507_400)
}

fn longitude() -> Coordinate {
    Coordinate::from_micro_degrees(-127_800)
}

#[test]
fn test_quality_flag_conversion() {
    assert_eq!(QualityFlag::from_u8(0).unwrap(), QualityFlag::Valid);
    assert_eq!(QualityFlag::from_u8(1).unwrap(), QualityFlag::Suspect);
    assert_eq!(QualityFlag::from_u8(9).unwrap(), QualityFlag::Missing);
    assert!(QualityFlag::from_u8(5).is_err());
}

#[test]
fn test_quality_flag_properties() {
    assert!(matches!(QualityFlag::from_u8(5), Err(ProcessingError::InvalidQualityFlag(5))));
    for flag in [QualityFlag::Valid, QualityFlag::Suspect, QualityFlag::Missing] {
        assert_eq!(QualityFlag::from_u8(flag.as_u8()).unwrap(), flag);
    }
    assert_eq!(QualityFlag::Valid.as_u8(), 0);
    assert_eq!(QualityFlag::Suspect.as_u8(), 1);
    assert_eq!(QualityFlag::Missing.as_u8(), 9);
    assert_eq!(QualityFlag::Valid.as_char(), '0');
    assert_eq!(QualityFlag::Suspect.as_char(), '1');
    assert_eq!(QualityFlag::Missing.as_char(), '9');
    assert!(QualityFlag::Valid.should_enforce_strict_validation());
    assert!(!QualityFlag::Suspect.should_enforce_strict_validation());
    assert!(QualityFlag::Valid.is_usable());
    assert!(QualityFlag::Suspect.is_usable());
    assert!(!QualityFlag::Missing.is_usable());
}

#[test]
fn temperature_test_temperature_validation() {
    let valid = TemperatureRecord::new(1, 1, date(), 255, 0).unwrap();
    assert!(valid.validate().is_ok());

    let invalid = TemperatureRecord::new(1, 1, date(), 550, 0).unwrap();
    assert!(invalid.validate().is_err());
    assert!(matches!(invalid.validate(), Err(ProcessingError::TemperatureValidation { .. })));

    assert!(TemperatureRecord::new(1, 1, date(), 500, 0).unwrap().validate().is_ok());
    assert!(TemperatureRecord::new(1, 1, date(), -500, 0).unwrap().validate().is_ok());
    assert!(TemperatureRecord::new(1, 1, date(), -501, 0).unwrap().validate().is_err());
    assert!(matches!(
        TemperatureRecord::new(1, 1, date(), 10, 7),
        Err(ProcessingError::InvalidQualityFlag(7))
    ));
}

#[test]
fn test_temperature_set_validation() {
    let mut temp_set = TemperatureSet::new();
    temp_set.min = Some(TemperatureRecord::new(1, 1, date(), 100, 0).unwrap());
    temp_set.avg = Some(TemperatureRecord::new(1, 1, date(), 150, 0).unwrap());
    temp_set.max = Some(TemperatureRecord::new(1, 1, date(), 200, 0).unwrap());

    assert!(temp_set.validate_relationships().is_ok());
    assert_eq!(temp_set.quality_flags_string(), "000");

    temp_set.avg = Some(TemperatureRecord::new(1, 1, date(), 250, 0).unwrap());
    assert!(temp_set.validate_relationships().is_err());

    temp_set.avg = Some(TemperatureRecord::new(1, 1, date(), 201, 1).unwrap());
    assert!(temp_set.validate_relationships().is_ok());
    assert_eq!(temp_set.quality_flags_string(), "010");
    temp_set.max = None;
    assert_eq!(temp_set.quality_flags_string(), "019");
}

#[test]
fn test_weather_record_creation() {
    let record = WeatherRecord::new(
        12345,
        "London Station".to_string(),
        date(),
        latitude(),
        longitude(),
        Some(100),
        Some(200),
        Some(150),
        Some(50),
        Some(32),
        Some("000".to_string()),
        Some("0".to_string()),
        Some("0".to_string()),
    );

    assert_eq!(record.station_id, 12345);
    assert_eq!(record.station_name, "London Station");
    assert!(record.has_complete_temperature());
    assert!(record.has_precipitation());
    assert!(record.has_wind_speed());
    assert_eq!(record.available_metrics().len(), 3);
    let (available, total) = record.metric_coverage();
    assert_eq!(available as f32 / total as f32, 1.0);
    assert_eq!(record.available_metrics(), vec!["temperature", "precipitation", "wind_speed"]);
    assert!(!record.has_valid_temperature_data());
    assert!(record.has_valid_precipitation_data());
    assert!(record.has_valid_wind_data());
    assert!(record.has_high_quality_data());
    assert!(!record.all_flags_clean());
    let mut plain = record.duplicate();
    plain.temp_quality = Some("0".to_string());
    assert!(plain.has_valid_temperature_data());
    assert!(plain.all_flags_clean());
}

#[test]
fn weather_test_temperature_validation() {
    let record = WeatherRecord::new(
        12345,
        "Test Station".to_string(),
        date(),
        latitude(),
        longitude(),
        Some(100),
        Some(200),
        Some(150),
        None,
        None,
        Some("000".to_string()),
        None,
        None,
    );

    assert!(record.validate_relationships().is_ok());
    assert_eq!(record.temperature_range(), Some(100));
}

#[test]
fn weather_test_invalid_temperature_relationship() {
    let record = WeatherRecord::new(
        12345,
        "Test Station".to_string(),
        date(),
        latitude(),
        longitude(),
        Some(200),
        Some(100),
        Some(150),
        None,
        None,
        Some("000".to_string()),
        None,
        None,
    );

    assert!(record.validate_relationships().is_err());
    assert!(matches!(
        record.validate_relationships(),
        Err(ProcessingError::TemperatureValidation { .. })
    ));
}

#[test]
fn weather_test_builder_pattern() {
    let record = WeatherRecord::builder()
        .station_id(12345)
        .station_name("Test Station".to_string())
        .date(date())
        .coordinates(latitude(), longitude())
        .temperatures(100, 150, 200)
        .precipitation(55)
        .wind_speed(32)
        .temp_quality("000".to_string())
        .build()
        .unwrap();

    assert_eq!(record.station_id, 12345);
    assert_eq!(record.station_name, "Test Station");
    assert!(record.validate_relationships().is_ok());
    assert!(record.has_complete_temperature());
    assert!(record.has_precipitation());
    assert!(record.has_wind_speed());
    assert_eq!(record.temp_validation, Some(PhysicalValidity::Valid));
}

#[test]
fn test_partial_data() {
    let record = WeatherRecord::builder()
        .station_id(12345)
        .station_name("Test Station".to_string())
        .date(date())
        .coordinates(latitude(), longitude())
        .temp_min(100)
        .precipitation(55)
        .build()
        .unwrap();

    assert!(record.has_temperature_data());
    assert!(!record.has_complete_temperature());
    assert!(record.has_precipitation());
    assert!(!record.has_wind_speed());
    assert_eq!(record.available_metrics().len(), 2);
    let (available, total) = record.metric_coverage();
    assert!((available as f32 / total as f32 - 0.666).abs() < 0.01);
}

#[test]
fn test_quality_flags() {
    let record = WeatherRecord::builder()
        .station_id(12345)
        .station_name("Test Station".to_string())
        .date(date())
        .coordinates(latitude(), longitude())
        .temp_min(100)
        .temp_quality("001".to_string())
        .build()
        .unwrap();

    assert!(!record.has_valid_temperature_data());
    assert!(record.has_suspect_data());
    assert!(!record.has_missing_data());
}

#[test]
fn test_builder_reports_missing_fields() {
    let missing = |result: Result<WeatherRecord, ProcessingError>| match result {
        Err(ProcessingError::MissingData(field)) => field,
        other => panic!("expected a missing field, got {:?}", other.map(|_| ())),
    };
    assert_eq!(missing(WeatherRecord::builder().build()), "station_id");
    assert_eq!(missing(WeatherRecord::builder().station_id(1).build()), "station_name");
    assert_eq!(
        missing(WeatherRecord::builder().station_id(1).station_name("A".to_string()).build()),
        "date"
    );
    assert_eq!(
        missing(
            WeatherRecord::builder()
                .station_id(1)
                .station_name("A".to_string())
                .date(date())
                .build()
        ),
        "latitude"
    );
}

#[test]
fn test_builder_refuses_records_out_of_order_or_range() {
    let base = || {
        WeatherRecord::builder()
            .station_id(1)
            .station_name("A".to_string())
            .date(date())
            .coordinates(latitude(), longitude())
    };
    assert!(matches!(
        base().temperatures(200, 150, 100).build(),
        Err(ProcessingError::TemperatureValidation { .. })
    ));
    assert!(base().temperatures(160, 150, 140).build().is_ok());
    assert!(matches!(
        base().temperatures(161, 150, 140).build(),
        Err(ProcessingError::TemperatureValidation { .. })
    ));
    assert!(matches!(
        base().temperatures(100, 150, 139).build(),
        Err(ProcessingError::TemperatureValidation { .. })
    ));
    match base().temp_max(501).build() {
        Err(ProcessingError::Validation(field)) => assert_eq!(field, "temp_max"),
        _ => panic!("expected a range error"),
    }
    match base().precipitation(10_001).build() {
        Err(ProcessingError::Validation(field)) => assert_eq!(field, "precipitation"),
        _ => panic!("expected a range error"),
    }
    match base().wind_speed(-1).build() {
        Err(ProcessingError::Validation(field)) => assert_eq!(field, "wind_speed"),
        _ => panic!("expected a range error"),
    }
    match base().coordinates(Coordinate::from_micro_degrees(90_000_001), longitude()).build() {
        Err(ProcessingError::Validation(field)) => assert_eq!(field, "latitude"),
        _ => panic!("expected a range error"),
    }
    let built = base().temperatures(100, 150, 200).build().unwrap();
    assert!(built.temp_min.unwrap() <= built.temp_avg.unwrap() + 10);
    assert!(built.temp_avg.unwrap() <= built.temp_max.unwrap() + 10);
}

fn record_with(
    temps: (Option<i32>, Option<i32>, Option<i32>),
    precipitation: Option<i32>,
    wind_speed: Option<i32>,
) -> WeatherRecord {
    WeatherRecord::new(
        1,
        "A".to_string(),
        date(),
        latitude(),
        longitude(),
        temps.0,
        temps.1,
        temps.2,
        precipitation,
        wind_speed,
        None,
        None,
        None,
    )
}

#[test]
fn test_physical_validation_limits() {
    let temp = |t: i32| record_with((Some(t), None, None), None, None).temp_validation;
    assert_eq!(temp(0), Some(PhysicalValidity::Valid));
    assert_eq!(temp(450), Some(PhysicalValidity::Valid));
    assert_eq!(temp(451), Some(PhysicalValidity::Suspect));
    assert_eq!(temp(600), Some(PhysicalValidity::Suspect));
    assert_eq!(temp(601), Some(PhysicalValidity::Invalid));
    assert_eq!(temp(-350), Some(PhysicalValidity::Valid));
    assert_eq!(temp(-351), Some(PhysicalValidity::Suspect));
    assert_eq!(temp(-900), Some(PhysicalValidity::Suspect));
    assert_eq!(temp(-901), Some(PhysicalValidity::Invalid));

    let precip = |p: i32| record_with((None, None, None), Some(p), None).precip_validation;
    assert_eq!(precip(0), Some(PhysicalValidity::Valid));
    assert_eq!(precip(5_000), Some(PhysicalValidity::Valid));
    assert_eq!(precip(5_001), Some(PhysicalValidity::Suspect));
    assert_eq!(precip(20_000), Some(PhysicalValidity::Suspect));
    assert_eq!(precip(20_001), Some(PhysicalValidity::Invalid));
    assert_eq!(precip(-1), Some(PhysicalValidity::Invalid));

    let wind = |w: i32| record_with((None, None, None), None, Some(w)).wind_validation;
    assert_eq!(wind(0), Some(PhysicalValidity::Valid));
    assert_eq!(wind(500), Some(PhysicalValidity::Valid));
    assert_eq!(wind(501), Some(PhysicalValidity::Suspect));
    assert_eq!(wind(1_200), Some(PhysicalValidity::Suspect));
    assert_eq!(wind(1_201), Some(PhysicalValidity::Invalid));
    assert_eq!(wind(-1), Some(PhysicalValidity::Invalid));

    let none = record_with((None, None, None), None, None);
    assert_eq!(none.temp_validation, None);
    assert_eq!(none.precip_validation, None);
    assert_eq!(none.wind_validation, None);
}

#[test]
fn test_worst_temperature_counts() {
    let record = record_with((Some(460), Some(700), Some(100)), None, None);
    assert_eq!(record.temp_validation, Some(PhysicalValidity::Invalid));
    let record = record_with((Some(100), Some(460), Some(100)), None, None);
    assert_eq!(record.temp_validation, Some(PhysicalValidity::Suspect));
    assert_eq!(PhysicalValidity::Valid.worst(PhysicalValidity::Suspect), PhysicalValidity::Suspect);
    assert_eq!(PhysicalValidity::Invalid.worst(PhysicalValidity::Suspect), PhysicalValidity::Invalid);
}

#[test]
fn test_physical_validation_is_idempotent() {
    let mut record = record_with((Some(460), Some(700), None), Some(6_000), Some(-5));
    let once = format!("{:?}", record);
    record.perform_physical_validation();
    assert_eq!(format!("{:?}", record), once);
    record.temp_validation = None;
    record.precip_validation = Some(PhysicalValidity::Valid);
    record.perform_physical_validation();
    assert_eq!(format!("{:?}", record), once);
}

#[test]
fn test_composite_quality_table() {
    let with = |flag: Option<&str>, validity: Option<PhysicalValidity>| {
        WeatherRecord::new_raw(
            1,
            "A".to_string(),
            date(),
            latitude(),
            longitude(),
            Some(100),
            None,
            None,
            Some(10),
            Some(10),
            flag.map(|f| f.to_string()),
            flag.map(|f| f.to_string()),
            flag.map(|f| f.to_string()),
            validity,
            validity,
            validity,
        )
    };
    let validities = [
        None,
        Some(PhysicalValidity::Valid),
        Some(PhysicalValidity::Suspect),
        Some(PhysicalValidity::Invalid),
    ];
    for validity in validities {
        let r = with(Some("9"), validity);
        assert_eq!(r.assess_temperature_quality(), DataQuality::Missing);
        assert_eq!(r.assess_precipitation_quality(), DataQuality::Missing);
        assert_eq!(r.assess_wind_quality(), DataQuality::Missing);
        assert_eq!(with(Some("19"), validity).assess_temperature_quality(), DataQuality::Missing);
    }
    for flag in [None, Some("0"), Some("1")] {
        let r = with(flag, Some(PhysicalValidity::Invalid));
        assert_eq!(r.assess_temperature_quality(), DataQuality::Invalid);
        assert_eq!(r.assess_precipitation_quality(), DataQuality::Invalid);
        assert_eq!(r.assess_wind_quality(), DataQuality::Invalid);
    }
    let r = with(Some("1"), Some(PhysicalValidity::Suspect));
    assert_eq!(r.assess_temperature_quality(), DataQuality::SuspectBoth);
    assert_eq!(r.assess_precipitation_quality(), DataQuality::SuspectBoth);
    assert_eq!(r.assess_wind_quality(), DataQuality::SuspectBoth);
    for validity in [None, Some(PhysicalValidity::Valid)] {
        let r = with(Some("1"), validity);
        assert_eq!(r.assess_temperature_quality(), DataQuality::SuspectOriginal);
        assert_eq!(r.assess_precipitation_quality(), DataQuality::SuspectOriginal);
        assert_eq!(r.assess_wind_quality(), DataQuality::SuspectOriginal);
    }
    for flag in [None, Some("0")] {
        let r = with(flag, Some(PhysicalValidity::Suspect));
        assert_eq!(r.assess_temperature_quality(), DataQuality::SuspectRange);
        assert_eq!(r.assess_precipitation_quality(), DataQuality::SuspectRange);
        assert_eq!(r.assess_wind_quality(), DataQuality::SuspectRange);
        for validity in [None, Some(PhysicalValidity::Valid)] {
            let r = with(flag, validity);
            assert_eq!(r.assess_temperature_quality(), DataQuality::Valid);
            assert_eq!(r.assess_precipitation_quality(), DataQuality::Valid);
            assert_eq!(r.assess_wind_quality(), DataQuality::Valid);
        }
    }
    let joined = with(Some("01"), Some(PhysicalValidity::Suspect));
    assert_eq!(joined.assess_temperature_quality(), DataQuality::SuspectBoth);
    assert_eq!(joined.assess_precipitation_quality(), DataQuality::SuspectRange);
}

#[test]
fn test_validity_names() {
    for validity in [PhysicalValidity::Valid, PhysicalValidity::Suspect, PhysicalValidity::Invalid] {
        assert_eq!(PhysicalValidity::parse(validity.as_str()), Some(validity));
    }
    assert_eq!(PhysicalValidity::Valid.as_str(), "Valid");
    assert_eq!(PhysicalValidity::parse("Suspect"), Some(PhysicalValidity::Suspect));
    assert_eq!(PhysicalValidity::parse("valid"), None);
    assert_eq!(PhysicalValidity::parse(""), None);
}

#[test]
fn test_consolidated_record_validation() {
    let record = ConsolidatedRecord::new(
        12345,
        "London Station".to_string(),
        date(),
        latitude(),
        longitude(),
        100,
        200,
        150,
        "000".to_string(),
    );

    assert!(record.validate_relationships().is_ok());
    assert!(record.has_valid_data());
    assert!(!record.has_suspect_data());
    assert!(!record.has_missing_data());
    assert!(record.is_complete());
    assert_eq!(record.temperature_range(), 100);
}

#[test]
fn consolidated_test_invalid_temperature_relationship() {
    let record = ConsolidatedRecord::new(
        12345,
        "London Station".to_string(),
        date(),
        latitude(),
        longitude(),
        200,
        100,
        150,
        "000".to_string(),
    );

    assert!(record.validate_relationships().is_err());
}

#[test]
fn consolidated_test_builder_pattern() {
    let record = ConsolidatedRecordBuilder::new()
        .station_id(12345)
        .station_name("Test Station".to_string())
        .date(date())
        .coordinates(latitude(), longitude())
        .temperatures(100, 150, 200)
        .quality_flags("000".to_string())
        .build()
        .unwrap();

    assert_eq!(record.station_id, 12345);
    assert_eq!(record.station_name, "Test Station");
    assert!(record.validate_relationships().is_ok());

    let incomplete = ConsolidatedRecordBuilder::new().station_id(1).build();
    match incomplete {
        Err(ProcessingError::MissingData(field)) => assert_eq!(field, "station_name"),
        _ => panic!("expected a missing field"),
    }
}

#[test]
fn test_consolidated_as_weather_record() {
    let record = ConsolidatedRecord::new(
        12345,
        "London Station".to_string(),
        date(),
        latitude(),
        longitude(),
        100,
        -9999,
        150,
        "090".to_string(),
    );
    let unified = record.as_weather_record();
    assert_eq!(unified.temp_min, Some(100));
    assert_eq!(unified.temp_max, None);
    assert_eq!(unified.temp_avg, Some(150));
    assert_eq!(unified.temp_quality, Some("09".to_string()));
    assert_eq!(unified.temp_validation, Some(PhysicalValidity::Valid));
    assert_eq!(unified.assess_temperature_quality(), DataQuality::Missing);
}

#[test]
fn test_station_validation() {
    let station = StationMetadata::new(
        12345,
        "London Weather Station".to_string(),
        "GB".to_string(),
        latitude(),
        longitude(),
        Some(35),
    );

    assert!(station.validate().is_ok());
    assert!(station.is_uk_station());
    assert!(station.is_within_uk_bounds());
}

#[test]
fn test_invalid_coordinates() {
    let station = StationMetadata::new(
        12345,
        "Invalid Station".to_string(),
        "GB".to_string(),
        Coordinate::from_micro_degrees(91_000_000),
        longitude(),
        None,
    );

    assert!(station.validate().is_err());
    assert!(matches!(station.validate(), Err(ProcessingError::Validation(_))));
}

#[test]
fn test_station_metadata() {
    let station = StationMetadata::new(
        12345,
        "London Weather Station".to_string(),
        "GB".to_string(),
        latitude(),
        longitude(),
        Some(35),
    );

    assert!(station.is_uk_station());
    assert!(station.is_within_uk_bounds());
    assert!(station.validate().is_ok());
}

#[test]
fn test_station_country_names() {
    let station = |country: &str| {
        StationMetadata::new(1, "A".to_string(), country.to_string(), latitude(), longitude(), None)
    };
    assert!(station("gb").is_uk_station());
    assert!(station("Uk").is_uk_station());
    assert!(station("United Kingdom").is_uk_station());
    assert!(!station("IE").is_uk_station());
    assert!(!station("GBR").is_uk_station());
    let unnamed = StationMetadata::new(1, String::new(), "GB".to_string(), latitude(), longitude(), None);
    assert!(unnamed.validate().is_err());
    let far = StationMetadata::new(
        1,
        "A".to_string(),
        "GB".to_string(),
        Coordinate::from_micro_degrees(48_000_000),
        longitude(),
        None,
    );
    assert!(!far.is_within_uk_bounds());
}

#[test]
fn test_dates() {
    assert!(Date::from_ymd_opt(2024, 2, 29).is_some());
    assert!(Date::from_ymd_opt(2023, 2, 29).is_none());
    assert!(Date::from_ymd_opt(1900, 2, 29).is_none());
    assert!(Date::from_ymd_opt(2000, 2, 29).is_some());
    assert!(Date::from_ymd_opt(2023, 4, 31).is_none());
    assert!(Date::from_ymd_opt(2023, 13, 1).is_none());
    assert!(Date::from_ymd_opt(2023, 0, 1).is_none());
    assert!(Date::from_ymd_opt(2023, 1, 0).is_none());
    let a = Date::from_ymd_opt(2023, 1, 31).unwrap();
    let b = Date::from_ymd_opt(2023, 2, 1).unwrap();
    assert!(a.is_before(&b));
    assert!(!b.is_before(&a));
    assert!(!a.is_before(&a));
    assert_eq!(a.earlier(b), a);
    assert_eq!(a.later(b), b);
    assert_eq!(a.to_text(), "2023-01-31");
    assert_eq!(Date::from_ymd_opt(-5, 12, 3).unwrap().to_text(), "-0005-12-03");
    assert_eq!(Date::from_ymd_opt(999, 1, 1).unwrap().to_text(), "0999-01-01");
    assert_eq!(Date::from_ymd_opt(0, 2, 29).unwrap().to_text(), "0000-02-29");
    assert_eq!(Date::from_ymd_opt(7, 10, 9).unwrap().to_text(), "0007-10-09");
    assert_eq!(Date::from_ymd_opt(42, 11, 30).unwrap().to_text(), "0042-11-30");
    assert_eq!(Date::from_ymd_opt(9999, 12, 31).unwrap().to_text(), "9999-12-31");
    assert_eq!(Date::from_ymd_opt(10000, 1, 1).unwrap().to_text(), "+10000-01-01");
    assert_eq!(Date::from_ymd_opt(-12345, 6, 7).unwrap().to_text(), "-12345-06-07");
    assert_eq!(Date::from_ymd_opt(-1, 1, 1).unwrap().to_text(), "-0001-01-01");
    assert_eq!(Date::from_ymd_opt(i32::MIN, 1, 1).unwrap().to_text(), "-2147483648-01-01");
    assert_eq!(Date::from_ymd_opt(i32::MAX, 12, 31).unwrap().to_text(), "+2147483647-12-31");
    assert_eq!(Date::parse_compact("20230131"), Some(a));
    assert_eq!(Date::parse_compact("20230229"), None);
    assert_eq!(Date::parse_compact("2023-01-31"), None);
    assert_eq!(Date::parse_compact(""), None);
}

#[test]
fn test_error_messages() {
    assert_eq!(ProcessingError::InvalidQualityFlag(5).message(), "Invalid quality flag: 5");
    assert_eq!(ProcessingError::StationNotFound { station_id: 257 }.message(), "Station 257 not found");
    assert_eq!(ProcessingError::Cancelled.message(), "Processing cancelled by user");
    assert_eq!(
        ProcessingError::MissingData("date".to_string()).message(),
        "Missing required data: date"
    );
    assert_eq!(
        ProcessingError::Config("x".to_string()).message(),
        "Configuration error: x"
    );
    assert_eq!(
        ProcessingError::InvalidTemperature("12.5".to_string()).message(),
        "Invalid temperature: 12.5"
    );
    assert_eq!(
        ProcessingError::InvalidFormat("x".to_string()).message(),
        "Invalid data format: x"
    );
    assert_eq!(
        ProcessingError::InvalidCoordinate("x".to_string()).message(),
        "Invalid coordinate format: x"
    );
    assert_eq!(
        ProcessingError::Validation("x".to_string()).message(),
        "Validation error: x"
    );
    assert_eq!(
        ProcessingError::DataMerge("x".to_string()).message(),
        "Data merge error: x"
    );
    assert_eq!(
        ProcessingError::TemperatureValidation { message: "x".to_string() }.message(),
        "Temperature validation error: x"
    );
}
