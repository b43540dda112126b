use ecad_processor::error::ProcessingError;
use ecad_processor::models::Date;
use ecad_processor::readers::{StationReader, TemperatureReader};

fn degrees(micro_arcsec: i64) -> f64 {
    micro_arcsec as f64 / 3_600_000_000.0
}

#[test]
fn test_parse_station_line() {
    let reader = StationReader::new();

    let line = "12345, London Weather Station        , GB, 51:30:26, -0:07:39,   35";
    let station = reader.parse_station_line(line).unwrap().unwrap();

    assert_eq!(station.staid, 12345);
    assert_eq!(station.name, "London Weather Station");
    assert_eq!(station.country, "GB");
    assert!((degrees(station.latitude.micro_arcsec) - 51.507222).abs() < 0.00001);
    assert!((degrees(station.longitude.micro_arcsec) - -0.1275).abs() < 0.00001);
    assert_eq!(station.latitude.micro_arcsec, 185_426_000_000);
    assert_eq!(station.longitude.micro_arcsec, -459_000_000);
    assert_eq!(station.elevation, Some(35));
}

#[test]
fn test_station_line_outcomes() {
    let reader = StationReader::new();
    assert!(reader.parse_station_line("1, A, GB, 51:30:26").unwrap().is_none());
    assert!(matches!(
        reader.parse_station_line("x, A, GB, 51:30:26, -0:07:39, 35"),
        Err(ProcessingError::InvalidFormat(_))
    ));
    assert!(matches!(
        reader.parse_station_line("1, A, GB, 51:70:26, -0:07:39, 35"),
        Err(ProcessingError::InvalidCoordinate(_))
    ));
    assert!(matches!(
        reader.parse_station_line("1, A, GB, 51:30:26, -0:07:39, high"),
        Err(ProcessingError::InvalidFormat(_))
    ));
    let station = reader.parse_station_line("1, A, GB, 51:30:26, -0:07:39, -999").unwrap().unwrap();
    assert_eq!(station.elevation, None);
    let station = reader.parse_station_line("1, A, GB, 51:30:26, -0:07:39, ").unwrap().unwrap();
    assert_eq!(station.elevation, None);
    let station = reader.parse_station_line("1, A, GB, 51:30:26, -0:07:39, -12").unwrap().unwrap();
    assert_eq!(station.elevation, Some(-12));
}

#[test]
fn test_read_stations_file() {
    let content = "STAID, STANAME                                 , CN, LAT    , LON     , HGHT\n------,----------------------------------------,---,--------,--------,-----\n\n    1, VAEXJOE                                 , SE, 56:52:00, 14:48:00,  166\n    2, BRAGANCA                                , PT, 41:48:00, -6:44:00,  691\n";

    let reader_test = StationReader::new();
    let stations = reader_test.read_stations(content);

    assert_eq!(stations.len(), 2);
    assert_eq!(stations[0].staid, 1);
    assert_eq!(stations[0].name, "VAEXJOE");
    assert_eq!(stations[1].staid, 2);
    assert_eq!(stations[1].name, "BRAGANCA");
}

#[test]
fn test_read_stations_skips_bad_rows() {
    let content = "STAID,STANAME,CN,LAT,LON,HGHT\r\n1,A,SE,56:52:00,14:48:00,166\r\n2,B,PT,41:99:00,-6:44:00,691\r\n3,C,PT,41:48:00\r\n4,D,PT,41:48:00,-6:44:00,691";
    let stations = StationReader::new().read_stations(content);
    let ids: Vec<u32> = stations.iter().map(|s| s.staid).collect();
    assert_eq!(ids, vec![1, 4]);

    let map = StationReader::new().read_stations_map(
        "1,A,SE,56:52:00,14:48:00,166\n1,B,PT,41:48:00,-6:44:00,691\n",
    );
    assert_eq!(map.len(), 1);
    assert_eq!(map.get(&1).unwrap().name, "B");
    assert!(map.get(&2).is_none());
}

#[test]
fn test_parse_temperature_line() {
    let reader = TemperatureReader::new();

    let line = "  101, 19500101,  125, 0";
    let record = reader.parse_temperature_line(line, 257).unwrap().unwrap();

    assert_eq!(record.staid, 257);
    assert_eq!(record.souid, 101);
    assert_eq!(record.date.to_text(), "1950-01-01");
    assert_eq!(record.date, Date { year: 1950, month: 1, day: 1 });
    assert_eq!(record.temperature, 125);
    assert_eq!(record.quality_flag, 0);
}

#[test]
fn test_temperature_line_outcomes() {
    let reader = TemperatureReader::new();
    assert!(reader.parse_temperature_line("101,19500101,125", 257).unwrap().is_none());
    assert!(reader.parse_temperature_line("101,19500101,-9999,9", 257).unwrap().is_none());
    assert!(reader.parse_temperature_line("101,19500101,-9999,7", 257).unwrap().is_none());
    assert!(reader.parse_temperature_line("", 257).unwrap().is_none());
    assert!(matches!(
        reader.parse_temperature_line("abc,19500101,125,0", 257),
        Err(ProcessingError::InvalidFormat(_))
    ));
    assert!(matches!(
        reader.parse_temperature_line("-1,19500101,125,0", 257),
        Err(ProcessingError::InvalidFormat(_))
    ));
    assert!(matches!(
        reader.parse_temperature_line("101,19501301,125,0", 257),
        Err(ProcessingError::InvalidFormat(_))
    ));
    assert!(matches!(
        reader.parse_temperature_line("101,19500101,12.5,0", 257),
        Err(ProcessingError::InvalidTemperature(_))
    ));
    assert!(matches!(
        reader.parse_temperature_line("101,19500101,99999999999,0", 257),
        Err(ProcessingError::InvalidTemperature(_))
    ));
    assert!(matches!(
        reader.parse_temperature_line("101,19500101,125,x", 257),
        Err(ProcessingError::InvalidFormat(_))
    ));
    assert!(matches!(
        reader.parse_temperature_line("101,19500101,125,5", 257),
        Err(ProcessingError::InvalidQualityFlag(5))
    ));
    let negative = reader.parse_temperature_line("101,19500101,-125,1,extra", 257).unwrap().unwrap();
    assert_eq!(negative.temperature, -125);
    assert_eq!(negative.quality_flag, 1);
    let signed = reader.parse_temperature_line("+101,19500101,+125,9", 257).unwrap().unwrap();
    assert_eq!(signed.souid, 101);
    assert_eq!(signed.temperature, 125);
    assert_eq!(signed.quality_flag, 9);
}

fn temperature_file() -> String {
    let mut content = String::new();
    for _ in 0..20 {
        content.push_str("Header line\n");
    }
    content.push_str("  101, 20230101,  125, 0\n");
    content.push_str("  101, 20230102,  130, 0\n");
    content.push_str("  101, 20230103, -9999, 9\n");
    content.push_str("  102, 20230101,  145, 0\n");
    content
}

#[test]
fn test_read_temperature_file() {
    let reader = TemperatureReader::new();
    let records = reader.read_temperatures("/tmp/TN_STAID000257.txt", &temperature_file()).unwrap();

    assert_eq!(records.len(), 3);
    assert_eq!(records[0].staid, 257);
    assert_eq!(records[0].temperature, 125);
    assert_eq!(records[1].temperature, 130);
    assert_eq!(records[2].temperature, 145);
}

#[test]
fn test_read_temperature_file_variants() {
    let content = temperature_file();
    let all = TemperatureReader::with_skip_headers(false)
        .read_temperatures_with_station_id("1,20230101,5,0\n\n2,20230102,6,1\nbad,row,here,0\n3,20230103,7,9", 9);
    let values: Vec<i32> = all.iter().map(|r| r.temperature).collect();
    assert_eq!(values, vec![5, 6, 7]);
    assert_eq!(all[0].staid, 9);

    let mapped = TemperatureReader::with_mmap(true);
    assert!(mapped.uses_mmap());
    assert!(!TemperatureReader::new().uses_mmap());
    let a = mapped.read_temperatures_with_station_id(&content, 257);
    let b = TemperatureReader::new().read_temperatures_with_station_id(&content, 257);
    assert_eq!(a, b);

    let windows = content.replace('\n', "\r\n");
    let c = TemperatureReader::new().read_temperatures_with_station_id(&windows, 257);
    assert_eq!(a, c);

    let other = TemperatureReader::new()
        .read_station_temperatures("TN_STAID000257.txt", &content, 258)
        .unwrap();
    assert!(other.is_empty());
    let same = TemperatureReader::new()
        .read_station_temperatures("TN_STAID000257.txt", &content, 257)
        .unwrap();
    assert_eq!(same.len(), 3);
    assert!(matches!(
        TemperatureReader::new().read_temperatures("notes.txt", &content),
        Err(ProcessingError::InvalidFormat(_))
    ));
}

#[test]
fn temperature_reader_test_temperature_validation() {
    let reader = TemperatureReader::new();

    let line = "  101, 20230101,  250, 0";
    let record = reader.parse_temperature_line(line, 257).unwrap().unwrap();
    assert!(record.validate().is_ok());

    let line = "  101, 20230101,  600, 0";
    let record = reader.parse_temperature_line(line, 257).unwrap().unwrap();
    assert!(record.validate().is_err());
}

#[test]
fn test_extract_station_id_from_path() {
    let reader = TemperatureReader::new();
    assert_eq!(reader.extract_station_id_from_path("TN_STAID000257.txt").unwrap(), 257);
    assert_eq!(reader.extract_station_id_from_path("a/b/TX_STAID001234.txt").unwrap(), 1234);
    assert!(matches!(
        reader.extract_station_id_from_path("a/b/stations.txt"),
        Err(ProcessingError::InvalidFormat(_))
    ));
    assert!(matches!(
        reader.extract_station_id_from_path("TN_STAID000257.csv"),
        Err(ProcessingError::InvalidFormat(_))
    ));
    assert!(matches!(
        reader.extract_station_id_from_path("TN_STAID000000.txt"),
        Err(ProcessingError::InvalidFormat(_))
    ));
    assert!(matches!(
        reader.extract_station_id_from_path("TN_STAID99999999999.txt"),
        Err(ProcessingError::InvalidFormat(_))
    ));
}
