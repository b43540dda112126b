use ecad_processor::archive::processor::extract_station_id_from_filename;
use ecad_processor::archive::{
    ArchiveEntry, ArchiveInspector, ArchiveProcessor, DirectoryFile, MultiArchiveProcessor,
    TemperatureType, WeatherMetric,
};
use ecad_processor::error::ProcessingError;
use ecad_processor::models::{DataQuality, Date, PhysicalValidity, WeatherRecord};
use ecad_processor::processors::ViolationType;
use ecad_processor::utils::coordinates::Coordinate;

fn entry(name: &str, content: &str) -> ArchiveEntry {
    ArchiveEntry { name: name.to_string(), content: content.to_string() }
}

fn banner() -> String {
    let mut text = String::new();
    for _ in 0..20 {
        text.push_str("Header line\n");
    }
    text
}

fn data_file(rows: &str) -> String {
    format!("{}{}", banner(), rows)
}

fn catalog() -> ArchiveEntry {
    entry(
        "stations.txt",
        "STAID,STANAME,CN,LAT,LON,HGHT\n257,TEST STATION,GB,+51:30:00,-000:07:00,100\n",
    )
}

fn day(year: i32, month: u32, day: u32) -> Date {
    Date::from_ymd_opt(year, month, day).unwrap()
}

fn process(entries: &Vec<ArchiveEntry>) -> (Vec<WeatherRecord>, ecad_processor::processors::IntegrityReport) {
    let processor = ArchiveProcessor::from_zip(entries).unwrap();
    processor.process_data(entries).unwrap()
}

fn test_archive_with_multiple_metrics() -> Vec<ArchiveEntry> {
    vec![
        entry(
            "stations.txt",
            "EUROPEAN CLIMATE ASSESSMENT & DATASET\n\nSTAID,STANAME,CN,LAT,LON,HGHT\n257,TEST STATION,GB,+51:30:00,-000:07:00,100\n258,ANOTHER STATION,GB,+52:30:00,-001:07:00,200\n",
        ),
        entry(
            "elements.txt",
            "EUROPEAN CLIMATE ASSESSMENT & DATASET\n\nELEID,DESC,UNIT\nTX1,Maximum temperature,0.1 C\nTN1,Minimum temperature,0.1 C\nRR1,Precipitation,0.1 mm\n",
        ),
        entry("TX_STAID000257.txt", "Header\n101,20230101,125,0\n101,20230102,130,0\n"),
        entry("TN_STAID000257.txt", "Header\n101,20230101,75,0\n101,20230102,80,0\n"),
        entry("RR_STAID000258.txt", "Header\n102,20230101,25,0\n102,20230102,30,0\n"),
    ]
}

#[test]
fn test_parse_data_file_name() {
    assert_eq!(
        ArchiveInspector::parse_data_file_name("TX_STAID000257.txt"),
        Some(WeatherMetric::Temperature(TemperatureType::Maximum))
    );
    assert_eq!(
        ArchiveInspector::parse_data_file_name("RR_STAID000258.txt"),
        Some(WeatherMetric::Precipitation)
    );
    assert_eq!(
        ArchiveInspector::parse_data_file_name("FG_STAID000259.txt"),
        Some(WeatherMetric::WindSpeed)
    );
    assert_eq!(ArchiveInspector::parse_data_file_name("stations.txt"), None);
    assert_eq!(ArchiveInspector::parse_data_file_name("invalid_file.txt"), None);
}

#[test]
fn inspector_test_extract_station_id_from_filename() {
    assert_eq!(
        ArchiveInspector::extract_station_id_from_filename("TX_STAID000257.txt"),
        Some(257)
    );
    assert_eq!(
        ArchiveInspector::extract_station_id_from_filename("RR_STAID001234.txt"),
        Some(1234)
    );
    assert_eq!(ArchiveInspector::extract_station_id_from_filename("invalid_file.txt"), None);
}

#[test]
fn processor_test_extract_station_id_from_filename() {
    assert_eq!(extract_station_id_from_filename("TX_STAID000257.txt"), Some(257));
    assert_eq!(extract_station_id_from_filename("RR_STAID001234.txt"), Some(1234));
    assert_eq!(extract_station_id_from_filename("invalid_file.txt"), None);
}

#[test]
fn test_station_id_of_zeros_is_none() {
    assert_eq!(extract_station_id_from_filename("TX_STAID000000.txt"), None);
    assert_eq!(extract_station_id_from_filename("TX_STAID000257"), None);
}

#[test]
fn test_weather_metric_from_prefix() {
    assert_eq!(
        WeatherMetric::from_file_prefix("TN"),
        Some(WeatherMetric::Temperature(TemperatureType::Minimum))
    );
    assert_eq!(
        WeatherMetric::from_file_prefix("TX"),
        Some(WeatherMetric::Temperature(TemperatureType::Maximum))
    );
    assert_eq!(
        WeatherMetric::from_file_prefix("TG"),
        Some(WeatherMetric::Temperature(TemperatureType::Average))
    );
    assert_eq!(WeatherMetric::from_file_prefix("RR"), Some(WeatherMetric::Precipitation));
    assert_eq!(WeatherMetric::from_file_prefix("FG"), Some(WeatherMetric::WindSpeed));
    assert_eq!(WeatherMetric::from_file_prefix("XX"), None);
}

#[test]
fn test_weather_metric_to_prefix() {
    assert_eq!(WeatherMetric::Temperature(TemperatureType::Minimum).to_file_prefix(), "TN");
    assert_eq!(WeatherMetric::Temperature(TemperatureType::Maximum).to_file_prefix(), "TX");
    assert_eq!(WeatherMetric::Temperature(TemperatureType::Average).to_file_prefix(), "TG");
    assert_eq!(WeatherMetric::Precipitation.to_file_prefix(), "RR");
    assert_eq!(WeatherMetric::WindSpeed.to_file_prefix(), "FG");
}

#[test]
fn test_weather_metric_display() {
    assert_eq!(
        WeatherMetric::Temperature(TemperatureType::Minimum).display_name(),
        "Temperature (Min)"
    );
    assert_eq!(WeatherMetric::Precipitation.display_name(), "Precipitation");
    assert_eq!(WeatherMetric::WindSpeed.display_name(), "Wind Speed");
}

#[test]
fn test_weather_metric_units() {
    assert_eq!(WeatherMetric::Temperature(TemperatureType::Minimum).units(), "0.1°C");
    assert_eq!(WeatherMetric::Precipitation.units(), "0.1mm");
    assert_eq!(WeatherMetric::WindSpeed.units(), "0.1 m/s");
}

#[test]
fn test_metric_prefix_round_trip() {
    let all = [
        WeatherMetric::Temperature(TemperatureType::Minimum),
        WeatherMetric::Temperature(TemperatureType::Maximum),
        WeatherMetric::Temperature(TemperatureType::Average),
        WeatherMetric::Precipitation,
        WeatherMetric::WindSpeed,
    ];
    for metric in all {
        assert_eq!(WeatherMetric::from_file_prefix(metric.to_file_prefix()), Some(metric));
    }
}

#[test]
fn test_inspect_zip() {
    let archive = test_archive_with_multiple_metrics();
    let metadata = ArchiveInspector::inspect_zip(&archive).unwrap();

    assert_eq!(metadata.country, "GB");
    assert_eq!(metadata.station_count, 2);
    assert_eq!(metadata.metrics.len(), 3);
    assert_eq!(metadata.total_files, 5);

    assert!(metadata.has_temperature_data());
    assert!(!metadata.has_complete_temperature());

    assert_eq!(
        metadata.file_count(WeatherMetric::Temperature(TemperatureType::Maximum)),
        Some(1)
    );
    assert_eq!(metadata.file_count(WeatherMetric::Precipitation), Some(1));
    assert_eq!(metadata.file_count(WeatherMetric::WindSpeed), None);
    assert_eq!(
        metadata.metrics,
        vec![
            WeatherMetric::Temperature(TemperatureType::Maximum),
            WeatherMetric::Temperature(TemperatureType::Minimum),
            WeatherMetric::Precipitation,
        ]
    );
}

#[test]
fn test_archive_metadata_display() {
    let archive = test_archive_with_multiple_metrics();
    let metadata = ArchiveInspector::inspect_zip(&archive).unwrap();

    let summary = metadata.display_summary();
    assert!(summary.contains("Country: GB"));
    assert!(summary.contains("Total Stations: 2"));
    assert!(summary.contains("Temperature (Max)"));
    assert!(summary.contains("Precipitation"));
    assert_eq!(
        summary,
        "Archive Metadata:\n  Country: GB\n  Total Stations: 2\n  Total Files: 5\n  Available Metrics:\n    Temperature (Max): 1 stations (0.1°C)\n    Temperature (Min): 1 stations (0.1°C)\n    Precipitation: 1 stations (0.1mm)\n"
    );
}

#[test]
fn test_inspect_without_data_files_is_refused() {
    let archive = vec![catalog(), entry("readme.md", "nothing")];
    let result = ArchiveInspector::inspect_zip(&archive);
    assert!(matches!(result, Err(ProcessingError::InvalidFormat(_))));
}

#[test]
fn test_inspect_without_catalog_is_refused() {
    let archive = vec![entry("TX_STAID000257.txt", &data_file("101,20230101,125,0\n"))];
    let result = ArchiveInspector::inspect_zip(&archive);
    assert!(matches!(result, Err(ProcessingError::InvalidFormat(_))));
}

#[test]
fn test_inspect_without_country_is_refused() {
    let archive = vec![
        entry("stations.txt", "STAID,STANAME,CN,LAT,LON,HGHT\n257,TEST STATION,GBR,+51:30:00,-000:07:00,100\n"),
        entry("TX_STAID000257.txt", &data_file("101,20230101,125,0\n")),
    ];
    let result = ArchiveInspector::inspect_zip(&archive);
    assert!(matches!(result, Err(ProcessingError::InvalidFormat(_))));
}

#[test]
fn test_first_country_is_reported() {
    let codes = ArchiveInspector::country_codes(
        "STAID,STANAME,CN,LAT,LON,HGHT\n1,A,SE,56:52:00,14:48:00,166\n2,B,PT,41:48:00,-6:44:00,691\n3,C,SE,56:52:00,14:48:00,166\n",
    );
    let codes: Vec<String> = codes.into_iter().map(|c| c.into_iter().collect()).collect();
    assert_eq!(codes, vec!["SE".to_string(), "PT".to_string()]);
}

#[test]
fn test_catalog_lines_with_a_dash_are_headers() {
    let codes = ArchiveInspector::country_codes(
        "STAID,STANAME,CN,LAT,LON,HGHT\n-,x,FR,0,0,0\n---,---,--,---\n1,A,SE,56:52:00,14:48:00,166\n",
    );
    let codes: Vec<String> = codes.into_iter().map(|c| c.into_iter().collect()).collect();
    assert_eq!(codes, vec!["SE".to_string()]);
}

#[test]
fn test_elements_catalog_metrics() {
    let metrics = ArchiveInspector::validate_with_elements(
        "EUROPEAN CLIMATE ASSESSMENT & DATASET\n\nELEID,DESC,UNIT\nTX1,Maximum temperature,0.1 C\nTN1,Minimum temperature,0.1 C\nRR1,Precipitation,0.1 mm\nTX2,Maximum temperature,0.1 C\nZZ9,Unknown,none\n",
    );
    assert_eq!(
        metrics,
        vec![
            WeatherMetric::Temperature(TemperatureType::Maximum),
            WeatherMetric::Temperature(TemperatureType::Minimum),
            WeatherMetric::Precipitation,
        ]
    );
}

#[test]
fn test_date_range_of_sampled_files() {
    let archive = vec![
        catalog(),
        entry("TX_STAID000257.txt", &data_file("101,20230105,125,0\n101,20230102,130,0\n")),
        entry("TN_STAID000257.txt", &data_file("101,20221231,75,0\nnot a row\n101,20230110,80,0\n")),
    ];
    let metadata = ArchiveInspector::inspect_zip(&archive).unwrap();
    assert_eq!(metadata.date_range, Some((day(2022, 12, 31), day(2023, 1, 10))));

    let short = test_archive_with_multiple_metrics();
    assert_eq!(ArchiveInspector::inspect_zip(&short).unwrap().date_range, None);
}

#[test]
fn test_scenario_minimal_archive() {
    let archive = vec![catalog(), entry("TX_STAID000257.txt", &data_file("101,20230101,125,0\n"))];
    let (records, report) = process(&archive);

    assert_eq!(records.len(), 1);
    let record = &records[0];
    assert_eq!(record.station_id, 257);
    assert_eq!(record.station_name, "TEST STATION");
    assert_eq!(record.date, day(2023, 1, 1));
    assert_eq!(record.latitude.micro_arcsec, 185_400_000_000);
    assert_eq!(record.longitude.micro_arcsec, -420_000_000);
    assert_eq!(record.temp_max, Some(125));
    assert_eq!(record.temp_min, None);
    assert_eq!(record.temp_avg, None);
    assert_eq!(record.precipitation, None);
    assert_eq!(record.wind_speed, None);
    assert_eq!(record.temp_quality, Some("0".to_string()));
    assert_eq!(record.precip_quality, None);
    assert_eq!(record.wind_quality, None);
    assert_eq!(record.temp_validation, Some(PhysicalValidity::Valid));
    assert_eq!(record.precip_validation, None);
    assert_eq!(record.wind_validation, None);

    let composition = MultiArchiveProcessor::composition(&records);
    assert_eq!(composition.total_records, 1);
    assert_eq!(composition.records_with_temperature, 1);
    assert_eq!(composition.records_with_precipitation, 0);
    assert_eq!(composition.records_with_wind_speed, 0);
    assert_eq!(composition.available_metrics, vec!["temperature".to_string()]);

    assert_eq!(report.total_records, 1);
    assert_eq!(report.valid_records, 1);
    assert!(report.temperature_violations.is_empty());
}

#[test]
fn test_scenario_temperature_ordering_violation() {
    let archive = vec![
        catalog(),
        entry("TN_STAID000257.txt", &data_file("101,20230715,200,0\n")),
        entry("TX_STAID000257.txt", &data_file("101,20230715,100,0\n")),
        entry("TG_STAID000257.txt", &data_file("101,20230715,150,0\n")),
    ];
    let (records, report) = process(&archive);

    assert_eq!(records.len(), 1);
    assert_eq!(records[0].temp_min, Some(200));
    assert_eq!(records[0].temp_max, Some(100));
    assert_eq!(records[0].temp_avg, Some(150));
    assert_eq!(records[0].temp_quality, Some("0".to_string()));
    assert_eq!(report.temperature_violations.len(), 1);
    let violation = &report.temperature_violations[0];
    assert_eq!(violation.violation_type, ViolationType::MinGreaterThanAvg);
    assert_eq!(violation.station_id, 257);
    assert_eq!(violation.date, day(2023, 7, 15));
    assert_eq!(violation.details, "Min temperature 20.0 > Avg temperature 15.0 (tolerance=1.0)");
}

#[test]
fn test_scenario_disjoint_archives_merge() {
    let first = vec![catalog(), entry("TX_STAID000257.txt", &data_file("101,20230101,125,0\n"))];
    let second = vec![catalog(), entry("RR_STAID000257.txt", &data_file("101,20230101,42,0\n"))];
    let (a, _) = process(&first);
    let (b, _) = process(&second);

    let (records, composition) = MultiArchiveProcessor::merge_records_by_key(vec![a, b]).unwrap();
    assert_eq!(records.len(), 1);
    assert_eq!(records[0].temp_max, Some(125));
    assert_eq!(records[0].precipitation, Some(42));
    assert_eq!(records[0].temp_quality, Some("0".to_string()));
    assert_eq!(records[0].precip_quality, Some("0".to_string()));
    assert_eq!(records[0].temp_validation, Some(PhysicalValidity::Valid));
    assert_eq!(records[0].precip_validation, Some(PhysicalValidity::Valid));
    assert_eq!(
        composition.available_metrics,
        vec!["temperature".to_string(), "precipitation".to_string()]
    );
    assert_eq!(composition.records_with_temperature, 1);
    assert_eq!(composition.records_with_precipitation, 1);
}

#[test]
fn test_scenario_physically_impossible() {
    let archive = vec![catalog(), entry("TX_STAID000257.txt", &data_file("101,20230101,700,0\n"))];
    let (records, report) = process(&archive);

    assert_eq!(records.len(), 1);
    assert_eq!(records[0].temp_max, Some(700));
    assert_eq!(records[0].temp_quality, Some("0".to_string()));
    assert_eq!(records[0].temp_validation, Some(PhysicalValidity::Invalid));
    assert_eq!(records[0].assess_temperature_quality(), DataQuality::Invalid);
    assert!(records[0].has_invalid_data());
    assert_eq!(report.temperature_violations.len(), 1);
    assert_eq!(report.temperature_violations[0].violation_type, ViolationType::OutOfRange);
}

#[test]
fn test_scenario_missing_sentinel() {
    let archive = vec![
        catalog(),
        entry(
            "TX_STAID000257.txt",
            &data_file("101,20230101,125,0\n101,20230102,-9999,9\n101,20230103,130,1\n"),
        ),
    ];
    let (records, _) = process(&archive);
    assert_eq!(records.len(), 2);
    assert_eq!(records[0].date, day(2023, 1, 1));
    assert_eq!(records[1].date, day(2023, 1, 3));
    assert_eq!(records[1].temp_quality, Some("1".to_string()));

    let with_rain = vec![
        catalog(),
        entry("TX_STAID000257.txt", &data_file("101,20230102,-9999,9\n")),
        entry("RR_STAID000257.txt", &data_file("101,20230102,12,0\n")),
    ];
    let (records, _) = process(&with_rain);
    assert_eq!(records.len(), 1);
    assert_eq!(records[0].date, day(2023, 1, 2));
    assert_eq!(records[0].temp_max, None);
    assert_eq!(records[0].temp_quality, None);
    assert_eq!(records[0].precipitation, Some(12));
}

#[test]
fn test_temperature_flags_are_joined_once() {
    let archive = vec![
        catalog(),
        entry("TN_STAID000257.txt", &data_file("101,20230101,50,0\n")),
        entry("TX_STAID000257.txt", &data_file("101,20230101,125,1\n")),
        entry("TG_STAID000257.txt", &data_file("101,20230101,90,0\n")),
    ];
    let (records, report) = process(&archive);
    assert_eq!(records.len(), 1);
    assert_eq!(records[0].temp_quality, Some("01".to_string()));
    assert_eq!(records[0].assess_temperature_quality(), DataQuality::SuspectOriginal);
    assert_eq!(report.suspect_records, 1);
    assert_eq!(report.valid_records, 0);
}

#[test]
fn test_unknown_station_is_skipped() {
    let archive = vec![
        catalog(),
        entry("TX_STAID000257.txt", &data_file("101,20230101,125,0\n")),
        entry("TX_STAID000999.txt", &data_file("101,20230101,125,0\n")),
    ];
    let (records, _) = process(&archive);
    assert_eq!(records.len(), 1);
    assert_eq!(records[0].station_id, 257);
}

#[test]
fn test_records_are_sorted_and_unique() {
    let archive = vec![
        entry(
            "stations.txt",
            "STAID,STANAME,CN,LAT,LON,HGHT\n300,LATER,GB,+51:30:00,-000:07:00,100\n257,TEST STATION,GB,+51:30:00,-000:07:00,100\n",
        ),
        entry("TX_STAID000300.txt", &data_file("101,20230103,125,0\n101,20230101,120,0\n")),
        entry("TX_STAID000257.txt", &data_file("101,20230102,125,0\n101,20221231,120,0\n101,20230102,126,0\n")),
        entry("TN_STAID000257.txt", &data_file("101,20230102,25,0\n")),
    ];
    let (records, _) = process(&archive);
    let keys: Vec<(u32, Date)> = records.iter().map(|r| (r.station_id, r.date)).collect();
    assert_eq!(
        keys,
        vec![
            (257, day(2022, 12, 31)),
            (257, day(2023, 1, 2)),
            (300, day(2023, 1, 1)),
            (300, day(2023, 1, 3)),
        ]
    );
    assert_eq!(records[1].temp_max, Some(126));
    assert_eq!(records[1].temp_min, Some(25));
    for record in &records {
        assert!(record.has_any_metric());
    }
}

#[test]
fn test_process_without_catalog_fails() {
    let archive = vec![catalog(), entry("TX_STAID000257.txt", &data_file("101,20230101,125,0\n"))];
    let processor = ArchiveProcessor::from_zip(&archive).unwrap();
    let other = vec![entry("TX_STAID000257.txt", &data_file("101,20230101,125,0\n"))];
    let result = processor.process_data(&other);
    assert!(matches!(result, Err(ProcessingError::InvalidFormat(_))));
}

fn sample_record(
    temp_min: Option<i32>,
    temp_max: Option<i32>,
    temp_avg: Option<i32>,
    precipitation: Option<i32>,
    temp_quality: Option<&str>,
    precip_quality: Option<&str>,
) -> WeatherRecord {
    WeatherRecord::new(
        123,
        "Test Station".to_string(),
        day(2023, 7, 15),
        Coordinate::from_micro_degrees(51_500_000),
        Coordinate::from_micro_degrees(-100_000),
        temp_min,
        temp_max,
        temp_avg,
        precipitation,
        None,
        temp_quality.map(|q| q.to_string()),
        precip_quality.map(|q| q.to_string()),
        None,
    )
}

#[test]
fn test_merge_weather_records() {
    let mut target = sample_record(Some(100), None, None, None, Some("0"), None);
    let source = sample_record(None, Some(200), Some(150), Some(55), None, Some("0"));

    MultiArchiveProcessor::merge_weather_records(&mut target, source).unwrap();

    assert_eq!(target.temp_min, Some(100));
    assert_eq!(target.temp_max, Some(200));
    assert_eq!(target.temp_avg, Some(150));
    assert_eq!(target.precipitation, Some(55));
    assert!(target.wind_speed.is_none());
    assert_eq!(target.temp_quality, Some("0".to_string()));
    assert_eq!(target.precip_quality, Some("0".to_string()));
}

#[test]
fn test_merge_of_other_day_is_refused() {
    let mut target = sample_record(Some(100), None, None, None, Some("0"), None);
    let mut source = sample_record(None, Some(200), None, None, Some("0"), None);
    source.date = day(2023, 7, 16);
    let result = MultiArchiveProcessor::merge_weather_records(&mut target, source);
    assert!(matches!(result, Err(ProcessingError::InvalidFormat(_))));
    assert_eq!(target.temp_max, None);

    let mut other_station = sample_record(None, Some(200), None, None, Some("0"), None);
    other_station.station_id = 124;
    let result = MultiArchiveProcessor::merge_weather_records(&mut target, other_station);
    assert!(matches!(result, Err(ProcessingError::InvalidFormat(_))));
}

#[test]
fn test_merge_of_disjoint_records_commutes() {
    let a = sample_record(Some(100), Some(200), Some(150), None, Some("0"), None);
    let b = sample_record(None, None, None, Some(55), None, Some("1"));

    let (ab, _) = MultiArchiveProcessor::merge_records_by_key(vec![
        vec![a.duplicate()],
        vec![b.duplicate()],
    ])
    .unwrap();
    let (ba, _) = MultiArchiveProcessor::merge_records_by_key(vec![vec![b], vec![a]]).unwrap();
    assert_eq!(ab.len(), 1);
    assert_eq!(ba.len(), 1);
    assert_eq!(format!("{:?}", ab[0]), format!("{:?}", ba[0]));
    assert_eq!(ab[0].temp_min, Some(100));
    assert_eq!(ab[0].precipitation, Some(55));
    assert_eq!(ab[0].precip_quality, Some("1".to_string()));
}

#[test]
fn test_last_value_wins_on_overlap() {
    let a = sample_record(Some(100), None, None, None, Some("0"), None);
    let b = sample_record(Some(700), None, None, None, Some("1"), None);
    let (records, _) = MultiArchiveProcessor::merge_records_by_key(vec![vec![a], vec![b]]).unwrap();
    assert_eq!(records.len(), 1);
    assert_eq!(records[0].temp_min, Some(700));
    assert_eq!(records[0].temp_quality, Some("1".to_string()));
    assert_eq!(records[0].temp_validation, Some(PhysicalValidity::Invalid));
}

#[test]
fn test_empty_rows_are_dropped() {
    let empty = sample_record(None, None, None, None, None, None);
    let full = sample_record(Some(100), None, None, None, Some("0"), None);
    let mut other_day = full.duplicate();
    other_day.date = day(2023, 7, 14);
    let (records, composition) =
        MultiArchiveProcessor::merge_records_by_key(vec![vec![empty], vec![other_day]]).unwrap();
    assert_eq!(records.len(), 1);
    assert_eq!(records[0].date, day(2023, 7, 14));
    assert_eq!(composition.total_records, 1);
}

fn directory() -> Vec<DirectoryFile> {
    let first = vec![catalog(), entry("TX_STAID000257.txt", &data_file("101,20230101,125,0\n"))];
    let second = vec![catalog(), entry("RR_STAID000257.txt", &data_file("101,20230101,42,0\n"))];
    vec![
        DirectoryFile { path: "data/UK_ALL_PRECIPITATION.zip".to_string(), is_file: true, entries: Some(second) },
        DirectoryFile { path: "data/UK_ALL_TEMP_MAX.zip".to_string(), is_file: true, entries: Some(first) },
        DirectoryFile { path: "data/OTHER_DATA.zip".to_string(), is_file: true, entries: None },
        DirectoryFile { path: "data/not_a_zip.txt".to_string(), is_file: true, entries: None },
        DirectoryFile { path: "data/folder.zip".to_string(), is_file: false, entries: None },
    ]
}

#[test]
fn test_directory_scanning() {
    let empty_archives = vec![
        DirectoryFile { path: "UK_ALL_TEMP_MIN.zip".to_string(), is_file: true, entries: None },
        DirectoryFile { path: "UK_ALL_TEMP_MAX.zip".to_string(), is_file: true, entries: None },
        DirectoryFile { path: "UK_ALL_PRECIPITATION.zip".to_string(), is_file: true, entries: None },
        DirectoryFile { path: "OTHER_DATA.zip".to_string(), is_file: true, entries: None },
        DirectoryFile { path: "not_a_zip.txt".to_string(), is_file: true, entries: None },
    ];
    let result = MultiArchiveProcessor::from_directory(empty_archives, Some("UK_ALL_"), 4);
    assert!(result.is_err());
}

#[test]
fn test_archive_candidates() {
    assert!(MultiArchiveProcessor::is_archive_candidate("dir/UK_ALL_TEMP.zip", true, None));
    assert!(MultiArchiveProcessor::is_archive_candidate("dir/UK_ALL_TEMP.zip", true, Some("")));
    assert!(MultiArchiveProcessor::is_archive_candidate("dir/UK_ALL_TEMP.zip", true, Some("UK_ALL_")));
    assert!(!MultiArchiveProcessor::is_archive_candidate("dir/UK_ALL_TEMP.zip", true, Some("dir")));
    assert!(!MultiArchiveProcessor::is_archive_candidate("dir/UK_ALL_TEMP.zip", false, None));
    assert!(!MultiArchiveProcessor::is_archive_candidate("dir/UK_ALL_TEMP.ZIP", true, None));
    assert!(!MultiArchiveProcessor::is_archive_candidate("dir/.zip", true, None));
    assert!(!MultiArchiveProcessor::is_archive_candidate("dir/zip", true, None));
    assert!(MultiArchiveProcessor::is_archive_candidate("a.tar.zip", true, None));
}

#[test]
fn test_directory_processing() {
    let processor = MultiArchiveProcessor::from_directory(directory(), Some("UK_ALL_"), 4).unwrap();
    assert_eq!(processor.archive_count(), 2);
    assert_eq!(
        processor.archive_paths(),
        vec!["data/UK_ALL_PRECIPITATION.zip".to_string(), "data/UK_ALL_TEMP_MAX.zip".to_string()]
    );
    assert_eq!(
        processor.get_summary(),
        "Multi-Archive Summary:\n  Archives: 2\n  Total Files: 4\n  Unique Metrics: 2\n  Available Metrics:\n    Precipitation: 1 archives\n    Temperature (Max): 1 archives\n"
    );

    let (records, report, composition) = processor.process_unified_data(None).unwrap();
    assert_eq!(records.len(), 1);
    assert_eq!(records[0].temp_max, Some(125));
    assert_eq!(records[0].precipitation, Some(42));
    assert_eq!(report.total_records, 2);
    assert_eq!(report.valid_records, 2);
    assert_eq!(report.station_statistics.values.len(), 1);
    assert_eq!(report.station_statistics.values[0].total_records, 1);
    assert_eq!(
        composition.available_metrics,
        vec!["temperature".to_string(), "precipitation".to_string()]
    );
}

#[test]
fn test_station_filter() {
    let processor = MultiArchiveProcessor::from_directory(directory(), None, 4).unwrap();
    let (records, report, composition) = processor.process_unified_data(Some(999)).unwrap();
    assert!(records.is_empty());
    assert_eq!(report.total_records, 2);
    assert_eq!(composition.total_records, 0);
    assert!(composition.available_metrics.is_empty());
}

#[test]
fn test_scenario_worker_count_does_not_matter() {
    let one = MultiArchiveProcessor::from_directory(directory(), None, 1).unwrap();
    let many = MultiArchiveProcessor::from_directory(directory(), None, 8).unwrap();
    assert_eq!(one.max_workers(), 1);
    assert_eq!(many.max_workers(), 8);
    let (a, report_a, _) = one.process_unified_data(None).unwrap();
    let (b, report_b, _) = many.process_unified_data(None).unwrap();
    assert_eq!(format!("{:?}", a), format!("{:?}", b));
    assert_eq!(format!("{:?}", report_a), format!("{:?}", report_b));
}

#[test]
fn test_archives_are_ordered_by_file_name() {
    let a = vec![catalog(), entry("TX_STAID000257.txt", &data_file("101,20230101,125,0\n"))];
    let files = vec![
        DirectoryFile { path: "x/c.zip".to_string(), is_file: true, entries: Some(a.clone()) },
        DirectoryFile { path: "y/a.zip".to_string(), is_file: true, entries: Some(a.clone()) },
        DirectoryFile { path: "z/b.zip".to_string(), is_file: true, entries: Some(a.clone()) },
        DirectoryFile { path: "w/a.zip".to_string(), is_file: true, entries: Some(a) },
    ];
    let processor = MultiArchiveProcessor::from_directory(files, None, 2).unwrap();
    assert_eq!(
        processor.archive_paths(),
        vec!["y/a.zip".to_string(), "w/a.zip".to_string(), "z/b.zip".to_string(), "x/c.zip".to_string()]
    );
}

#[test]
fn test_unlisted_metrics() {
    let archive = test_archive_with_multiple_metrics();
    let metadata = ArchiveInspector::inspect_zip(&archive).unwrap();
    assert_eq!(
        metadata.unlisted_metrics("ELEID,DESC,UNIT\nTX1,Maximum temperature,0.1 C\n"),
        vec![WeatherMetric::Temperature(TemperatureType::Minimum), WeatherMetric::Precipitation]
    );
    assert!(metadata
        .unlisted_metrics("TX1,a,b\nTN2,a,b\nRR1,a,b\nFG1,a,b\n")
        .is_empty());
}
