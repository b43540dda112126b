use ecad_processor::error::ProcessingError;
use ecad_processor::models::{ConsolidatedRecord, Date, PhysicalValidity, WeatherRecord};
use ecad_processor::utils::coordinates::{
    decimal_to_dms, parse_coordinate, validate_uk_coordinates, Coordinate,
};
use ecad_processor::utils::{
    dms_to_decimal, generate_default_parquet_filename, generate_default_unified_parquet_filename,
};
use ecad_processor::writers::parquet_writer::{
    batch_to_records, batch_to_weather_records, consolidated_columns, records_to_batch,
    weather_columns, weather_records_to_batch, ColumnKind,
};
use ecad_processor::writers::{Compression, ParquetWriter, SchemaType};

fn degrees(c: Coordinate) -> f64 {
    c.micro_arcsec as f64 / 3_600_000_000.0
}

fn decimal(value: f64) -> Coordinate {
    Coordinate::from_micro_degrees((value * 1_000_000.0).round() as i32)
}

#[test]
fn test_dms_to_decimal() {
    assert!((degrees(dms_to_decimal("50:30:15").unwrap()) - 50.504167).abs() < 0.000001);
    assert!((degrees(dms_to_decimal("51:28:38").unwrap()) - 51.477222).abs() < 0.000001);

    let result = degrees(dms_to_decimal("-0:07:39").unwrap());
    let expected = -0.1275;
    assert!((result - expected).abs() < 0.0001);
}

#[test]
fn test_dms_exact_values() {
    assert_eq!(dms_to_decimal("50:30:15").unwrap().micro_arcsec, 181_815_000_000);
    assert_eq!(dms_to_decimal("-0:07:39").unwrap().micro_arcsec, -459_000_000);
    assert_eq!(dms_to_decimal("+51:30:00").unwrap().micro_arcsec, 185_400_000_000);
    assert_eq!(dms_to_decimal("-000:07:00").unwrap().micro_arcsec, -420_000_000);
    assert_eq!(dms_to_decimal("0:0:0.5").unwrap().micro_arcsec, 500_000);
    assert_eq!(dms_to_decimal("1:30.5:0").unwrap().micro_arcsec, 5_430_000_000);
    assert_eq!(dms_to_decimal("-0:00:00").unwrap().micro_arcsec, 0);
}

#[test]
fn test_dms_any_number_of_decimals() {
    assert_eq!(dms_to_decimal("50:30:15.1234567").unwrap().micro_arcsec, 181_815_123_456);
    assert_eq!(dms_to_decimal("50:30:15.1234569999999999999").unwrap().micro_arcsec, 181_815_123_456);
    assert_eq!(dms_to_decimal("0:0:0.0000009").unwrap().micro_arcsec, 0);
    assert_eq!(dms_to_decimal("-0:0:0.0000019").unwrap().micro_arcsec, -1);
    assert_eq!(dms_to_decimal("0.5:0.5:0.5").unwrap().micro_arcsec, 1_830_500_000);
    assert_eq!(
        dms_to_decimal("0.0000000001:0.000000001:0.0000009").unwrap().micro_arcsec,
        1
    );
    assert_eq!(dms_to_decimal("0.00000000009:0:0.0000006").unwrap().micro_arcsec, 0);
    assert_eq!(dms_to_decimal("00050:030:015.000000000000000000000").unwrap().micro_arcsec, 181_815_000_000);
    assert_eq!(dms_to_decimal("51.50741234567").unwrap().micro_arcsec, 185_426_684_444);
    assert_eq!(dms_to_decimal("-51.50741234567").unwrap().micro_arcsec, -185_426_684_444);
    assert_eq!(dms_to_decimal("0.00000000027").unwrap().micro_arcsec, 0);
    assert_eq!(dms_to_decimal("0.00000000028").unwrap().micro_arcsec, 1);
}

#[test]
fn test_dms_number_forms() {
    assert_eq!(dms_to_decimal(".5").unwrap().micro_arcsec, 1_800_000_000);
    assert_eq!(dms_to_decimal("5.").unwrap().micro_arcsec, 18_000_000_000);
    assert_eq!(dms_to_decimal("+5").unwrap().micro_arcsec, 18_000_000_000);
    assert_eq!(dms_to_decimal("-.5").unwrap().micro_arcsec, -1_800_000_000);
    assert_eq!(dms_to_decimal("1.:.5:+.25").unwrap().micro_arcsec, 3_630_250_000);
    assert_eq!(dms_to_decimal("50:-0:-0.000").unwrap().micro_arcsec, 180_000_000_000);
    assert_eq!(dms_to_decimal("50:59.999999:59.999999").unwrap().micro_arcsec, 183_659_999_939);
    for text in [".", "+", "-", "+.", "-.", "--5", "+-5", "5-", "5.5.", "5,5"] {
        assert!(
            matches!(dms_to_decimal(text), Err(ProcessingError::InvalidCoordinate(_))),
            "{}",
            text
        );
    }
}

#[test]
fn test_dms_large_whole_parts() {
    assert_eq!(dms_to_decimal("2000000:00:00").unwrap().micro_arcsec, 7_200_000_000_000_000);
    assert_eq!(dms_to_decimal("-2000000:00:00").unwrap().micro_arcsec, -7_200_000_000_000_000);
    assert_eq!(dms_to_decimal("2562047788:00:54.775807").unwrap().micro_arcsec, i64::MAX);
    assert_eq!(dms_to_decimal("2562047788:00:54.7758079").unwrap().micro_arcsec, i64::MAX);
    assert_eq!(dms_to_decimal("-2562047788:00:54.775807").unwrap().micro_arcsec, -i64::MAX);
    assert_eq!(dms_to_decimal("2562047788.01521550194").unwrap().micro_arcsec, 9_223_372_036_854_775_806);
    for text in [
        "2562047788:00:54.775808",
        "2562047788:01:00",
        "2562047789:00:00",
        "-2562047789:00:00",
        "99999999999999999999999999999999:00:00",
        "2562047789",
        "2562047788.1",
        "18446744073709551616",
    ] {
        assert!(
            matches!(dms_to_decimal(text), Err(ProcessingError::InvalidCoordinate(_))),
            "{}",
            text
        );
    }
}

#[test]
fn test_invalid_dms_format() {
    assert!(dms_to_decimal("50:30").is_err());
    assert!(dms_to_decimal("50:70:15").is_err());
    assert!(dms_to_decimal("50:30:70").is_err());
}

#[test]
fn test_dms_rejections() {
    for text in [
        "", "fifty", "50:30", "50:30:15:10", "50::15", ":30:15", "50:30:", "a:30:15", "50:b:15",
        "50:30:c", "50:60:15", "50:30:60", "50:-1:15", "50:30:-1", " 50:30:15", "50:30:15 ",
        "50:.:15", "50:30:+", "-:30:15", "50:30:1.5.2", "50:-0.5:15", "50:30:-0.000001",
        "50:60.0:15", "50:30:59.9.9",
    ] {
        assert!(
            matches!(dms_to_decimal(text), Err(ProcessingError::InvalidCoordinate(_))),
            "{}",
            text
        );
    }
    assert_eq!(dms_to_decimal("51.5074").unwrap().micro_arcsec, 185_426_640_000);
    assert_eq!(dms_to_decimal("-0.1275").unwrap().micro_arcsec, -459_000_000);
    assert!(dms_to_decimal(" 51.5074").is_err());
}

#[test]
fn test_decimal_to_dms() {
    assert_eq!(decimal_to_dms(decimal(50.504167)), "50:30:15.00");
    assert_eq!(decimal_to_dms(decimal(-0.1275)), "-0:07:39.00");
    assert_eq!(decimal_to_dms(dms_to_decimal("12:05:07.256").unwrap()), "12:05:07.26");
    assert_eq!(decimal_to_dms(Coordinate { micro_arcsec: 0 }), "0:00:00.00");
}

#[test]
fn test_parse_coordinate() {
    assert!((degrees(parse_coordinate("51.5074").unwrap()) - 51.5074).abs() < 0.000001);
    assert!((degrees(parse_coordinate("50:30:15").unwrap()) - 50.504167).abs() < 0.000001);
    assert!((degrees(parse_coordinate(" -0.1278 ").unwrap()) - -0.1278).abs() < 0.000001);
    assert_eq!(parse_coordinate("51.5074").unwrap().micro_arcsec, 185_426_640_000);
    assert_eq!(parse_coordinate(" 50:30:15\t").unwrap().micro_arcsec, 181_815_000_000);
    assert!(matches!(parse_coordinate("north"), Err(ProcessingError::InvalidCoordinate(_))));
    assert!(matches!(parse_coordinate(""), Err(ProcessingError::InvalidCoordinate(_))));
    assert!(matches!(parse_coordinate("1.5.2"), Err(ProcessingError::InvalidCoordinate(_))));
}

#[test]
fn test_uk_coordinate_validation() {
    assert!(validate_uk_coordinates(decimal(51.5074), decimal(-0.1278)).is_ok());
    assert!(validate_uk_coordinates(decimal(55.9533), decimal(-3.1883)).is_ok());
    assert!(validate_uk_coordinates(decimal(48.0), decimal(0.0)).is_err());
    assert!(validate_uk_coordinates(decimal(62.0), decimal(0.0)).is_err());
    assert!(validate_uk_coordinates(decimal(49.5), decimal(-8.0)).is_ok());
    assert!(validate_uk_coordinates(decimal(61.0), decimal(2.0)).is_ok());
    assert!(matches!(
        validate_uk_coordinates(decimal(55.0), decimal(2.000001)),
        Err(ProcessingError::InvalidCoordinate(_))
    ));
}

#[test]
fn test_generate_default_parquet_filename() {
    let today = Date::from_ymd_opt(2024, 3, 5).unwrap();
    let filename_str = generate_default_parquet_filename(today);

    assert!(filename_str.contains("ecad-weather-"));
    assert!(filename_str.ends_with(".parquet"));
    assert!(filename_str.starts_with("output/"));

    let parts: Vec<&str> = filename_str.split('/').collect();
    assert_eq!(parts.len(), 2);
    assert_eq!(parts[0], "output");

    let file_part = parts[1];
    assert!(file_part.starts_with("ecad-weather-"));
    assert!(file_part.ends_with(".parquet"));
    assert_eq!(filename_str, "output/ecad-weather-240305.parquet");
}

#[test]
fn test_generate_default_unified_parquet_filename() {
    let today = Date::from_ymd_opt(2009, 12, 31).unwrap();
    let filename_str = generate_default_unified_parquet_filename(today);

    assert!(filename_str.contains("ecad-weather-unified-"));
    assert!(filename_str.ends_with(".parquet"));
    assert!(filename_str.starts_with("output/"));
    assert_eq!(filename_str, "output/ecad-weather-unified-091231.parquet");
}

#[test]
fn test_compression_names() {
    let of = |name: &str| ParquetWriter::new().with_compression(name).map(|w| w.compression());
    assert_eq!(of("snappy").unwrap(), Compression::Snappy);
    assert_eq!(of("gzip").unwrap(), Compression::Gzip);
    assert_eq!(of("lz4").unwrap(), Compression::Lz4);
    assert_eq!(of("zstd").unwrap(), Compression::Zstd);
    assert_eq!(of("none").unwrap(), Compression::Uncompressed);
    assert_eq!(of("GZIP").unwrap(), Compression::Gzip);
    assert_eq!(of("Zstd").unwrap(), Compression::Zstd);
    assert!(matches!(of("brotli"), Err(ProcessingError::Config(_))));
    assert!(matches!(of(""), Err(ProcessingError::Config(_))));
    assert_eq!(ParquetWriter::new().compression(), Compression::Snappy);
    assert_eq!(ParquetWriter::new().row_group_size(), 10_000);
    let writer = ParquetWriter::new().with_row_group_size(500).with_compression("lz4").unwrap();
    assert_eq!(writer.row_group_size(), 500);
}

#[test]
fn test_batches() {
    let writer = ParquetWriter::new();
    assert_eq!(writer.batches(0, 10), vec![]);
    assert_eq!(writer.batches(1, 10), vec![(0, 1)]);
    assert_eq!(writer.batches(10, 10), vec![(0, 10)]);
    assert_eq!(writer.batches(25, 10), vec![(0, 10), (10, 20), (20, 25)]);
    assert_eq!(writer.batches(3, 1), vec![(0, 1), (1, 2), (2, 3)]);
}

#[test]
fn test_schema() {
    let columns = weather_columns();
    let names: Vec<&str> = columns.iter().map(|c| c.name).collect();
    assert_eq!(
        names,
        vec![
            "station_id",
            "station_name",
            "date",
            "latitude",
            "longitude",
            "temp_min",
            "temp_max",
            "temp_avg",
            "precipitation",
            "wind_speed",
            "temp_quality",
            "precip_quality",
            "wind_quality",
            "temp_validation",
            "precip_validation",
            "wind_validation",
        ]
    );
    assert!(columns.iter().take(5).all(|c| !c.nullable));
    assert!(columns.iter().skip(5).all(|c| c.nullable));
    assert_eq!(columns[0].kind, ColumnKind::UInt32);
    assert_eq!(columns[2].kind, ColumnKind::Day);
    assert_eq!(columns[3].kind, ColumnKind::Float64);
    assert_eq!(columns[5].kind, ColumnKind::Float32);
    let writer = ParquetWriter::new();
    assert_eq!(writer.detect_schema_type(9), SchemaType::ConsolidatedRecord);
    assert_eq!(writer.detect_schema_type(13), SchemaType::WeatherRecord);
    assert_eq!(writer.detect_schema_type(columns.len()), SchemaType::WeatherRecord);
    assert_eq!(writer.detect_schema_type(10), SchemaType::Unknown);
}

#[test]
fn test_batch_round_trip() {
    let day = |d: u32| Date::from_ymd_opt(2023, 7, d).unwrap();
    let records = vec![
        WeatherRecord::new(
            1,
            "A".to_string(),
            day(1),
            decimal(51.5),
            decimal(-0.1),
            Some(100),
            None,
            Some(700),
            None,
            Some(32),
            Some("01".to_string()),
            None,
            Some("9".to_string()),
        ),
        WeatherRecord::new(
            2,
            "B".to_string(),
            day(2),
            decimal(52.5),
            decimal(0.1),
            None,
            None,
            None,
            Some(6_000),
            None,
            None,
            Some("0".to_string()),
            None,
        ),
        WeatherRecord::new_raw(
            3,
            "C".to_string(),
            day(3),
            decimal(53.5),
            decimal(1.1),
            None,
            Some(5),
            None,
            None,
            None,
            None,
            None,
            None,
            None,
            Some(PhysicalValidity::Suspect),
            None,
        ),
    ];
    let batch = weather_records_to_batch(&records, 0, records.len());
    assert_eq!(batch.station_ids, vec![1, 2, 3]);
    assert_eq!(batch.temp_avgs, vec![Some(700), None, None]);
    assert_eq!(
        batch.temp_validations,
        vec![Some("Invalid".to_string()), None, None]
    );
    assert_eq!(
        batch.precip_validations,
        vec![None, Some("Suspect".to_string()), Some("Suspect".to_string())]
    );
    let back = batch_to_weather_records(&batch).unwrap();
    assert_eq!(format!("{:?}", back), format!("{:?}", records));

    let part = weather_records_to_batch(&records, 1, 2);
    assert_eq!(part.station_names, vec!["B".to_string()]);

    let mut broken = batch;
    broken.dates.pop();
    assert!(matches!(batch_to_weather_records(&broken), Err(ProcessingError::Config(_))));
}

#[test]
fn test_consolidated_batch_round_trip() {
    let make = |id: u32, d: u32, flags: &str| {
        ConsolidatedRecord::new(
            id,
            format!("Station {}", id),
            Date::from_ymd_opt(2023, 7, d).unwrap(),
            decimal(51.5),
            decimal(-0.1),
            100,
            -9999,
            150,
            flags.to_string(),
        )
    };
    let records = vec![make(1, 1, "090"), make(2, 2, "000"), make(3, 3, "111")];
    let batch = records_to_batch(&records, 1, 3);
    assert_eq!(batch.station_ids, vec![2, 3]);
    assert_eq!(batch.quality_flags, vec!["000".to_string(), "111".to_string()]);
    assert_eq!(batch.max_temps, vec![-9999, -9999]);
    let back = batch_to_records(&batch).unwrap();
    assert_eq!(format!("{:?}", back), format!("{:?}", &records[1..]));
    let names: Vec<&str> = consolidated_columns().iter().map(|c| c.name).collect();
    assert_eq!(
        names,
        vec![
            "station_id",
            "station_name",
            "date",
            "latitude",
            "longitude",
            "min_temp",
            "max_temp",
            "avg_temp",
            "quality_flags",
        ]
    );
    assert!(consolidated_columns().iter().all(|c| !c.nullable));
    let mut broken = batch;
    broken.quality_flags.pop();
    assert!(matches!(batch_to_records(&broken), Err(ProcessingError::Config(_))));
}
