use ecad_processor::analyzers::WeatherAnalyzer;
use ecad_processor::error::ProcessingError;
use ecad_processor::models::{
    ConsolidatedRecord, Date, StationMetadata, TemperatureRecord, WeatherRecord,
};
use ecad_processor::processors::data_merger::TemperatureData;
use ecad_processor::processors::{DataMerger, IntegrityChecker, ViolationType};
use ecad_processor::archive::{ArchiveEntry, MultiArchiveProcessor};
use ecad_processor::processors::parallel_processor::StationSeries;
use ecad_processor::processors::ParallelProcessor;
use ecad_processor::readers::{ConcurrentReader, StationTemperatureData};
use ecad_processor::utils::coordinates::Coordinate;
use ecad_processor::writers::dataset_summary::create_diverse_sample;
use ecad_processor::writers::ParquetWriter;
use ecad_processor::utils::table::OrderedTable;
use std::collections::HashMap;

fn date() -> Date {
    Date::from_ymd_opt(2023, 7, 15).unwrap()
}

fn day(d: u32) -> Date {
    Date::from_ymd_opt(2023, 7, d).unwrap()
}

fn station() -> StationMetadata {
    StationMetadata::new(
        12345,
        "Test Station".to_string(),
        "GB".to_string(),
        Coordinate::from_micro_degrees(51_507_400),
        Coordinate::from_micro_degrees(-127_800),
        Some(35),
    )
}

#[test]
fn test_merge_complete_data() {
    let min_temp = TemperatureRecord::new(12345, 101, date(), 150, 0).unwrap();
    let max_temp = TemperatureRecord::new(12345, 101, date(), 250, 0).unwrap();
    let avg_temp = TemperatureRecord::new(12345, 101, date(), 200, 0).unwrap();

    let merger = DataMerger::new();
    let records = merger
        .merge_station_data(&station(), vec![min_temp], vec![max_temp], vec![avg_temp])
        .unwrap();

    assert_eq!(records.len(), 1);
    assert_eq!(records[0].min_temp, 150);
    assert_eq!(records[0].max_temp, 250);
    assert_eq!(records[0].avg_temp, 200);
    assert_eq!(records[0].quality_flags, "000");
}

#[test]
fn test_merge_incomplete_data() {
    let min_temp = TemperatureRecord::new(12345, 101, date(), 150, 0).unwrap();
    let max_temp = TemperatureRecord::new(12345, 101, date(), 250, 0).unwrap();

    let merger = DataMerger::new();
    let records = merger
        .merge_station_data(&station(), vec![min_temp.clone()], vec![max_temp.clone()], vec![])
        .unwrap();

    assert_eq!(records.len(), 0);

    let merger = DataMerger::with_allow_incomplete(true);
    let records = merger
        .merge_station_data(&station(), vec![min_temp], vec![max_temp], vec![])
        .unwrap();

    assert_eq!(records.len(), 1);
    assert_eq!(records[0].quality_flags, "090");
    assert_eq!(records[0].avg_temp, -9999);
}

#[test]
fn test_merge_orders_by_day() {
    let row = |d: u32, t: i32, flag: u8| TemperatureRecord::new(12345, 101, day(d), t, flag).unwrap();
    let records = DataMerger::new()
        .merge_station_data(
            &station(),
            vec![row(3, 10, 0), row(1, 11, 0), row(1, 12, 1)],
            vec![row(1, 30, 0), row(3, 31, 0)],
            vec![row(3, 20, 0), row(1, 21, 0), row(2, 22, 0)],
        )
        .unwrap();
    let days: Vec<u32> = records.iter().map(|r| r.date.day).collect();
    assert_eq!(days, vec![1, 3]);
    assert_eq!(records[0].min_temp, 12);
    assert_eq!(records[0].quality_flags, "100");
}

#[test]
fn test_merge_temperature_data() {
    let mut stations = HashMap::new();
    stations.insert(12345, station());
    let row = |id: u32, d: u32, t: i32| TemperatureRecord::new(id, 101, day(d), t, 0).unwrap();
    let data = TemperatureData {
        stations,
        min_temperatures: vec![row(12345, 2, 10), row(999, 1, 10), row(12345, 1, 11)],
        max_temperatures: vec![row(12345, 2, 30), row(999, 1, 30), row(12345, 1, 31)],
        avg_temperatures: vec![row(12345, 2, 20), row(999, 1, 20), row(12345, 1, 21)],
    };
    let records = DataMerger::new().merge_temperature_data(&data).unwrap();
    let keys: Vec<(u32, u32)> = records.iter().map(|r| (r.station_id, r.date.day)).collect();
    assert_eq!(keys, vec![(12345, 1), (12345, 2)]);
    assert_eq!(records[0].avg_temp, 21);
}

fn record(
    station_id: u32,
    date: Date,
    temps: (Option<i32>, Option<i32>, Option<i32>),
    flag: Option<&str>,
) -> WeatherRecord {
    WeatherRecord::new(
        station_id,
        "Test Station".to_string(),
        date,
        Coordinate::from_micro_degrees(51_507_400),
        Coordinate::from_micro_degrees(-127_800),
        temps.0,
        temps.1,
        temps.2,
        None,
        None,
        flag.map(|f| f.to_string()),
        None,
        None,
    )
}

#[test]
fn test_suspicious_jumps() {
    let records = vec![
        record(1, day(1), (Some(0), Some(100), Some(50)), Some("0")),
        record(1, day(2), (Some(200), Some(301), Some(-151)), Some("0")),
        record(1, day(3), (Some(0), None, Some(-151)), Some("0")),
        record(2, day(4), (Some(900), None, None), Some("0")),
    ];
    let report = IntegrityChecker::new().check_integrity(&records).unwrap();
    let jumps: Vec<(u32, Date, String)> = report
        .temperature_violations
        .iter()
        .filter(|v| v.violation_type == ViolationType::SuspiciousJump)
        .map(|v| (v.station_id, v.date, v.details.clone()))
        .collect();
    assert_eq!(
        jumps,
        vec![
            (1, day(2), "max temperature jumped 20.1°C from 2023-07-01 to 2023-07-02".to_string()),
            (1, day(2), "avg temperature jumped 20.1°C from 2023-07-01 to 2023-07-02".to_string()),
        ]
    );
}

#[test]
fn test_jumps_follow_the_order_of_days() {
    let records = vec![
        record(1, day(3), (Some(0), None, None), Some("0")),
        record(1, day(1), (Some(0), None, None), Some("0")),
        record(1, day(2), (Some(250), None, None), Some("0")),
    ];
    let report = IntegrityChecker::with_strict_mode(true).check_integrity(&records).unwrap();
    let jumps: Vec<Date> = report
        .temperature_violations
        .iter()
        .filter(|v| v.violation_type == ViolationType::SuspiciousJump)
        .map(|v| v.date)
        .collect();
    assert_eq!(jumps, vec![day(2), day(3)]);
}

#[test]
fn test_record_classes_and_station_statistics() {
    let records = vec![
        record(7, day(1), (Some(-20), Some(100), Some(50)), Some("0")),
        record(7, day(2), (Some(30), None, Some(61)), Some("01")),
        record(7, day(3), (None, None, Some(-10)), Some("9")),
        record(7, day(4), (Some(10), None, None), Some("5")),
        record(8, day(1), (None, Some(10), None), None),
    ];
    let report = IntegrityChecker::new().check_integrity(&records).unwrap();
    assert_eq!(report.total_records, 5);
    assert_eq!(report.valid_records, 2);
    assert_eq!(report.suspect_records, 1);
    assert_eq!(report.missing_data_records, 1);
    assert_eq!(report.invalid_records, 1);
    assert_eq!(
        report.valid_records
            + report.suspect_records
            + report.missing_data_records
            + report.invalid_records,
        report.total_records
    );

    assert_eq!(report.station_statistics.keys, vec![7u128, 8u128]);
    let seven = report.station_statistics.values[report.station_statistics.find(7).unwrap()];
    assert_eq!(seven.total_records, 4);
    assert_eq!(seven.valid_records, 1);
    assert_eq!(seven.suspect_records, 1);
    assert_eq!(seven.missing_data_records, 1);
    assert_eq!(seven.min_temp, Some(-20));
    assert_eq!(seven.max_temp, Some(30));
    assert_eq!(seven.avg_temp, Some(22));
    let eight = report.station_statistics.values[report.station_statistics.find(8).unwrap()];
    assert_eq!(eight.total_records, 1);
    assert_eq!(eight.valid_records, 1);
    assert_eq!(eight.min_temp, None);
    assert_eq!(eight.avg_temp, None);
    assert!(report.station_statistics.find(9).is_none());
}

#[test]
fn test_record_violations() {
    let records = vec![
        record(1, day(1), (Some(111), Some(100), Some(100)), Some("0")),
        record(1, day(2), (Some(110), Some(100), Some(100)), Some("0")),
        record(1, day(3), (Some(100), Some(89), Some(100)), Some("0")),
        record(1, day(4), (Some(100), Some(100), Some(-9999)), Some("0")),
        record(1, day(5), (Some(-501), None, None), Some("0")),
        record(1, day(6), (Some(520), Some(501), Some(505)), Some("0")),
    ];
    let report = IntegrityChecker::new().check_integrity(&records).unwrap();
    let found: Vec<(u32, ViolationType)> = report
        .temperature_violations
        .iter()
        .filter(|v| v.violation_type != ViolationType::SuspiciousJump)
        .map(|v| (v.date.day, v.violation_type))
        .collect();
    assert_eq!(
        found,
        vec![
            (1, ViolationType::MinGreaterThanAvg),
            (3, ViolationType::AvgGreaterThanMax),
            (4, ViolationType::MinGreaterThanAvg),
            (5, ViolationType::OutOfRange),
            (6, ViolationType::MinGreaterThanAvg),
            (6, ViolationType::OutOfRange),
        ]
    );
    assert_eq!(
        report.temperature_violations[1].details,
        "Avg temperature 10.0 > Max temperature 8.9 (tolerance=1.0)"
    );
}

#[test]
fn test_combined_reports() {
    let first = IntegrityChecker::new()
        .check_integrity(&vec![
            record(1, day(1), (Some(700), None, None), Some("0")),
            record(2, day(1), (Some(10), None, None), Some("1")),
        ])
        .unwrap();
    let second = IntegrityChecker::new()
        .check_integrity(&vec![record(2, day(2), (Some(20), None, None), Some("0"))])
        .unwrap();
    let combined = MultiArchiveProcessor::combine_integrity_reports(vec![first, second]);
    assert_eq!(combined.total_records, 3);
    assert_eq!(combined.valid_records, 2);
    assert_eq!(combined.suspect_records, 1);
    assert_eq!(combined.temperature_violations.len(), 1);
    assert_eq!(combined.station_statistics.keys, vec![1u128, 2u128]);
    let two = combined.station_statistics.values[1];
    assert_eq!(two.total_records, 1);
    assert_eq!(two.valid_records, 1);
    assert_eq!(two.min_temp, Some(20));

    let nothing = MultiArchiveProcessor::combine_integrity_reports(vec![]);
    assert_eq!(nothing.total_records, 0);
    assert!(nothing.station_statistics.keys.is_empty());
}

#[test]
fn test_combined_reports_of_any_tables() {
    let mut first = IntegrityChecker::new()
        .check_integrity(&vec![
            record(5, day(1), (Some(50), None, None), Some("0")),
            record(3, day(1), (Some(30), None, None), Some("0")),
        ])
        .unwrap();
    first.station_statistics.keys = vec![5u128, 3u128, 9u128];
    let mut second = IntegrityChecker::new()
        .check_integrity(&vec![record(4, day(2), (Some(40), None, None), Some("0"))])
        .unwrap();
    second.station_statistics.values.clear();
    let combined = MultiArchiveProcessor::combine_integrity_reports(vec![first, second]);
    assert_eq!(combined.total_records, 3);
    assert_eq!(combined.station_statistics.keys, vec![3u128, 5u128]);
    assert_eq!(combined.station_statistics.values.len(), 2);
    assert!(combined.station_statistics.is_well_formed());
}

#[test]
fn test_statistics_of_consolidated_records() {
    let make = |id: u32, d: u32, temps: (i32, i32, i32), flags: &str, lat: i32| {
        ConsolidatedRecord::new(
            id,
            "Station".to_string(),
            day(d),
            Coordinate::from_micro_degrees(lat),
            Coordinate::from_micro_degrees(-1_000_000),
            temps.0,
            temps.1,
            temps.2,
            flags.to_string(),
        )
    };
    let records = vec![
        make(1, 5, (100, 200, 150), "000", 51_000_000),
        make(2, 2, (-9999, 250, 170), "900", 52_000_000),
        make(1, 9, (50, 600, -9999), "019", 50_000_000),
    ];
    let stats = WeatherAnalyzer::new().calculate_statistics(&records).unwrap();
    assert_eq!(stats.total_records, 3);
    assert_eq!(stats.unique_stations, 2);
    assert_eq!(stats.date_range, (day(2), day(9)));
    assert_eq!(stats.temperature_stats.min_temp, Some(50));
    assert_eq!(stats.temperature_stats.max_temp, Some(250));
    assert_eq!(stats.temperature_stats.avg_sum, 320);
    assert_eq!(stats.temperature_stats.avg_count, 2);
    assert_eq!(stats.data_quality.total_records, 3);
    assert_eq!(stats.data_quality.valid_records, 1);
    assert_eq!(stats.data_quality.suspect_records, 1);
    assert_eq!(stats.data_quality.missing_records, 2);
    assert_eq!(stats.data_quality.complete_records, 1);
    assert_eq!(stats.geographic_bounds.min_lat, 50_000_000i64 * 3600);
    assert_eq!(stats.geographic_bounds.max_lat, 52_000_000i64 * 3600);
    assert!(matches!(
        WeatherAnalyzer::new().calculate_statistics(&vec![]),
        Err(ProcessingError::Config(_))
    ));
}

fn full_record(
    station_id: u32,
    name: &str,
    date: Date,
    temps: (Option<i32>, Option<i32>, Option<i32>),
    precipitation: Option<i32>,
    wind_speed: Option<i32>,
    flags: (Option<&str>, Option<&str>, Option<&str>),
    latitude: i32,
) -> WeatherRecord {
    WeatherRecord::new(
        station_id,
        name.to_string(),
        date,
        Coordinate::from_micro_degrees(latitude),
        Coordinate::from_micro_degrees(-6_000_000),
        temps.0,
        temps.1,
        temps.2,
        precipitation,
        wind_speed,
        flags.0.map(|f| f.to_string()),
        flags.1.map(|f| f.to_string()),
        flags.2.map(|f| f.to_string()),
    )
}

#[test]
fn test_dataset_summary() {
    let records = vec![
        full_record(1, "A", day(3), (Some(-50), Some(100), None), Some(20), None, (Some("0"), Some("1"), None), 54_000_000),
        full_record(1, "A", day(4), (Some(-80), Some(700), None), None, Some(90), (Some("01"), None, Some("9")), 54_000_000),
        full_record(2, "B", day(1), (None, None, None), Some(6_000), Some(40), (None, Some("0"), Some("0")), 52_000_000),
        full_record(2, "B", day(9), (Some(-50), Some(120), Some(30)), Some(30_000), None, (Some("9"), Some("0"), None), 52_000_000),
    ];
    let summary = ParquetWriter::new().analyze_weather_dataset(&records, 3);
    assert_eq!(summary.total_records, 4);
    assert_eq!(summary.total_stations, 2);
    assert_eq!(summary.geographic_bounds.min_lat, 52_000_000i64 * 3600);
    assert_eq!(summary.geographic_bounds.max_lat, 54_000_000i64 * 3600);
    assert_eq!(summary.geographic_bounds.countries, vec!["GB".to_string(), "IE".to_string()]);
    assert_eq!(summary.temporal_coverage.overall_start, day(1));
    assert_eq!(summary.temporal_coverage.overall_end, day(9));
    assert_eq!(summary.temporal_coverage.temperature_range, Some((day(3), day(9))));
    assert_eq!(summary.temporal_coverage.precipitation_range, Some((day(1), day(9))));
    assert_eq!(summary.temporal_coverage.wind_range, Some((day(1), day(4))));
    assert_eq!(summary.metric_statistics.temperature_records, 3);
    assert_eq!(summary.metric_statistics.temperature_stations, 2);
    assert_eq!(summary.metric_statistics.precipitation_records, 3);
    assert_eq!(summary.metric_statistics.wind_records, 2);
    assert_eq!(summary.metric_statistics.wind_stations, 2);
    assert_eq!(summary.metric_statistics.temperature_range, Some((-50, 120)));
    assert_eq!(summary.metric_statistics.precipitation_range, Some((0, 6_000)));
    assert_eq!(summary.metric_statistics.wind_range, Some((0, 90)));

    let quality = summary.data_quality;
    assert_eq!(quality.ecad_valid, 5);
    assert_eq!(quality.ecad_suspect, 1);
    assert_eq!(quality.ecad_missing, 2);
    assert_eq!(quality.physically_valid, 5);
    assert_eq!(quality.physically_suspect, 1);
    assert_eq!(quality.physically_invalid, 2);
    assert_eq!(quality.combined_valid, 6);
    assert_eq!(quality.combined_suspect_original, 1);
    assert_eq!(quality.combined_suspect_range, 1);
    assert_eq!(quality.combined_suspect_both, 0);
    assert_eq!(quality.combined_invalid, 2);
    assert_eq!(quality.combined_missing, 2);
    assert_eq!(quality.validation_errors, 0);

    assert_eq!(summary.extreme_records.coldest.unwrap().date, day(3));
    assert_eq!(summary.extreme_records.hottest.unwrap().date, day(9));
    assert_eq!(summary.extreme_records.wettest.unwrap().date, day(1));
    assert_eq!(summary.extreme_records.windiest.unwrap().date, day(4));

    let sample: Vec<Date> = summary.sample_records.iter().map(|r| r.date).collect();
    assert_eq!(sample, vec![day(3), day(4), day(1)]);

    let empty = ParquetWriter::new().analyze_weather_dataset(&vec![], 3);
    assert_eq!(empty.total_records, 0);
    assert_eq!(empty.geographic_bounds.min_lat, i64::MAX);
    assert_eq!(empty.geographic_bounds.countries, vec!["IE".to_string()]);
    assert_eq!(empty.temporal_coverage.overall_start, Date::from_ymd_opt(1900, 1, 1).unwrap());
    assert_eq!(empty.temporal_coverage.overall_end, Date::from_ymd_opt(2000, 1, 1).unwrap());
    assert!(empty.sample_records.is_empty());
    assert!(empty.extreme_records.coldest.is_none());
}

#[test]
fn test_diverse_sample() {
    let mut records = Vec::new();
    for i in 0..10u32 {
        let name = if i < 6 { "A" } else { "B" };
        records.push(full_record(1, name, day(i + 1), (Some(0), None, None), None, None, (None, None, None), 54_000_000));
    }
    let days = |n: usize| -> Vec<u32> {
        sample_days(&records, n)
    };
    assert_eq!(days(0), Vec::<u32>::new());
    assert_eq!(days(10), vec![1, 2, 7, 8, 3, 5, 9]);
    assert_eq!(days(5), vec![1, 3, 7, 9, 5]);
    assert_eq!(days(2), vec![1, 6]);
    assert_eq!(days(20), vec![1, 2, 7, 8, 3, 5, 9]);
}

fn sample_days(records: &Vec<WeatherRecord>, n: usize) -> Vec<u32> {
    create_diverse_sample(records, n).iter().map(|r| r.date.day).collect()
}

#[test]
fn test_ordered_table() {
    let mut table: OrderedTable<u32> = OrderedTable::new();
    assert!(table.is_well_formed());
    table.put(5, 50);
    table.put(1, 10);
    table.put(9, 90);
    table.put(5, 55);
    assert_eq!(table.keys, vec![1u128, 5, 9]);
    assert_eq!(table.values, vec![10, 55, 90]);
    assert_eq!(table.len(), 3);
    assert_eq!(table.find(5), Some(1));
    assert_eq!(table.find(4), None);
    assert_eq!(table.position(0), 0);
    assert_eq!(table.position(6), 2);
    assert_eq!(table.position(10), 3);
    assert!(table.is_well_formed());
    table.keys.swap(0, 2);
    assert!(!table.is_well_formed());
    table.keys.swap(0, 2);
    table.values.pop();
    assert!(!table.is_well_formed());
}

#[test]
fn test_parallel_processor() {
    let row = |id: u32, d: u32, t: i32| TemperatureRecord::new(id, 101, day(d), t, 0).unwrap();
    let series = |id: u32, days: Vec<u32>| StationSeries {
        station: StationMetadata::new(
            id,
            format!("Station {}", id),
            "GB".to_string(),
            Coordinate::from_micro_degrees(51_507_400),
            Coordinate::from_micro_degrees(-127_800),
            None,
        ),
        data: StationTemperatureData {
            station_id: id,
            min_temperatures: days.iter().map(|d| row(id, *d, 10)).collect(),
            max_temperatures: days.iter().map(|d| row(id, *d, 30 + 300 * (*d as i32 % 2))).collect(),
            avg_temperatures: days.iter().map(|d| row(id, *d, 20)).collect(),
        },
    };
    let processor = ParallelProcessor::new(4);
    assert_eq!(processor.max_workers(), 4);
    assert_eq!(processor.chunk_size(), 1000);
    assert_eq!(processor.process_in_batches(2500), vec![(0, 1000), (1000, 2000), (2000, 2500)]);
    assert_eq!(ParallelProcessor::new(1).with_chunk_size(2).process_in_batches(3), vec![(0, 2), (2, 3)]);

    let stations = vec![series(9, vec![2, 1]), series(3, vec![5]), series(9, vec![1])];
    let (records, report) = processor.process_by_stations(&stations).unwrap();
    let keys: Vec<(u32, u32, String)> = records
        .iter()
        .map(|r| (r.station_id, r.date.day, r.station_name.clone()))
        .collect();
    assert_eq!(
        keys,
        vec![
            (3, 5, "Station 3".to_string()),
            (9, 1, "Station 9".to_string()),
            (9, 1, "Station 9".to_string()),
            (9, 2, "Station 9".to_string()),
        ]
    );
    assert_eq!(report.total_records, 4);
    let jumps = report
        .temperature_violations
        .iter()
        .filter(|v| v.violation_type == ViolationType::SuspiciousJump)
        .count();
    assert_eq!(jumps, 1);

    let single = processor.process_single_station(&stations[1]).unwrap();
    assert_eq!(single.len(), 1);
    assert_eq!(single[0].max_temp, 330);

    let incomplete = StationSeries {
        station: station(),
        data: StationTemperatureData {
            station_id: 12345,
            min_temperatures: vec![row(12345, 1, 10)],
            max_temperatures: vec![],
            avg_temperatures: vec![],
        },
    };
    assert!(processor.process_single_station(&incomplete).unwrap().is_empty());
    let lenient = ParallelProcessor::new(4).with_allow_incomplete(true).with_strict_validation(true);
    let made = lenient.process_single_station(&incomplete).unwrap();
    assert_eq!(made.len(), 1);
    assert_eq!(made[0].quality_flags, "099");

    let mut known = HashMap::new();
    known.insert(12345, station());
    let data = TemperatureData {
        stations: known,
        min_temperatures: vec![row(12345, 2, 10), row(12345, 1, 11)],
        max_temperatures: vec![row(12345, 2, 30), row(12345, 1, 31)],
        avg_temperatures: vec![row(12345, 2, 20), row(12345, 1, 21)],
    };
    let (records, report) = processor.process_all_data(&data).unwrap();
    assert_eq!(records.len(), 2);
    assert_eq!(records[0].date.day, 1);
    assert_eq!(report.total_records, 2);
    assert_eq!(report.valid_records, 2);
    assert!(report.temperature_violations.is_empty());
}

#[test]
fn test_concurrent_reader() {
    let mut stations = HashMap::new();
    stations.insert(257, station());
    let mut abroad = station();
    abroad.country = "SE".to_string();
    stations.insert(300, abroad);

    assert_eq!(ConcurrentReader::file_prefix_of_directory("uk_temp_min").unwrap(), "TN");
    assert_eq!(ConcurrentReader::file_prefix_of_directory("uk_temp_max").unwrap(), "TX");
    assert_eq!(ConcurrentReader::file_prefix_of_directory("uk_temp_avg").unwrap(), "TG");
    assert!(matches!(
        ConcurrentReader::file_prefix_of_directory("uk_rain"),
        Err(ProcessingError::InvalidFormat(_))
    ));

    assert!(ConcurrentReader::is_temperature_file("TN_STAID000257.txt", "TN", &stations));
    assert!(!ConcurrentReader::is_temperature_file("TX_STAID000257.txt", "TN", &stations));
    assert!(!ConcurrentReader::is_temperature_file("TN_STAID000300.txt", "TN", &stations));
    assert!(!ConcurrentReader::is_temperature_file("TN_STAID000999.txt", "TN", &stations));
    assert!(!ConcurrentReader::is_temperature_file("TN_STAID000257.csv", "TN", &stations));
    assert!(!ConcurrentReader::is_temperature_file("TN_STAID.txt", "TN", &stations));
    assert!(!ConcurrentReader::is_temperature_file("xTN_STAID000257.txt", "TN", &stations));

    let mut text = String::new();
    for _ in 0..20 {
        text.push_str("Header line\n");
    }
    text.push_str("101,20230101,125,0\n101,20230102,-9999,9\n101,20230103,130,1\n");
    let file = |name: &str| ArchiveEntry { name: name.to_string(), content: text.clone() };
    let reader = ConcurrentReader::new(2);
    assert_eq!(reader.max_workers(), 2);
    let data = reader.read_all_temperature_data(
        "STAID,STANAME,CN,LAT,LON,HGHT\n257,TEST STATION,GB,+51:30:00,-000:07:00,100\n300,ABROAD,SE,+51:30:00,-000:07:00,100\n",
        &vec![file("TN_STAID000257.txt"), file("TN_STAID000300.txt"), file("notes.txt")],
        &vec![file("TX_STAID000257.txt")],
        &vec![],
    );
    assert_eq!(data.stations.len(), 2);
    assert_eq!(data.min_temperatures.len(), 2);
    assert_eq!(data.min_temperatures[0].staid, 257);
    assert_eq!(data.max_temperatures.len(), 2);
    assert!(data.avg_temperatures.is_empty());

    let one = reader.process_station_data(257, Some(&text), None, Some(&text)).unwrap();
    assert_eq!(one.station_id, 257);
    assert_eq!(one.min_temperatures.len(), 2);
    assert!(one.max_temperatures.is_empty());
    assert_eq!(one.avg_temperatures[1].temperature, 130);
    assert!(matches!(
        reader.process_station_data(0, None, Some(&text), None),
        Err(ProcessingError::InvalidFormat(_))
    ));
    assert!(reader.process_station_data(0, None, None, None).is_ok());
}
