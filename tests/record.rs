use depth_logger::convert::Reading;
use depth_logger::record::{encode_row, header, log_file_name, open_preamble, SampleRecord};
use depth_logger::timestamp::UtcTime;

fn noon() -> UtcTime {
    UtcTime { year: 2024, month: 3, day: 1, hour: 12, minute: 30, second: 5, micros: 123 }
}

fn text(bytes: Vec<u8>) -> String {
    String::from_utf8(bytes).unwrap()
}

#[test]
fn row_of_a_converted_sample() {
    let r = SampleRecord::new(noon(), 0);
    assert_eq!(text(encode_row(&r)), "2024-03-01T12:30:05.000123Z,0,1.650402930,50.012210012,3.435137114\n");
}

#[test]
fn row_of_negative_values() {
    let r = SampleRecord {
        timestamp: UtcTime { year: 999, month: 12, day: 31, hour: 23, minute: 59, second: 59, micros: 999_999 },
        raw_code: -3000,
        reading: Reading { voltage_nv: -5, pressure_npsi: -1_000_000_000, depth_nm: -12_345_678_901 },
    };
    assert_eq!(text(encode_row(&r)), "0999-12-31T23:59:59.999999Z,-3000,-0.000000005,-1.000000000,-12.345678901\n");
}

#[test]
fn header_names_the_columns() {
    assert_eq!(text(header()), "timestamp,adc_value,voltage,pressure_psi,depth_meters\n");
}

#[test]
fn file_name_embeds_the_run_start() {
    assert_eq!(text(log_file_name(&noon())), "2024-03-01T12-30-05_depth_data.csv");
}

#[test]
fn header_only_for_a_new_file() {
    assert_eq!(open_preamble(0), header());
    assert!(open_preamble(1).is_empty());
    assert!(open_preamble(4096).is_empty());
}

fn read_back(log: &[u8]) -> Vec<Vec<String>> {
    let mut reader = csv::Reader::from_reader(log);
    let headers = reader.headers().unwrap().clone();
    assert_eq!(headers.iter().collect::<Vec<_>>(), vec!["timestamp", "adc_value", "voltage", "pressure_psi", "depth_meters"]);
    reader.records().map(|r| r.unwrap().iter().map(|f| f.to_string()).collect()).collect()
}

#[test]
fn row_reads_back_through_csv() {
    let r = SampleRecord::new(noon(), 1234);
    let mut log = open_preamble(0);
    log.extend(encode_row(&r));
    let rows = read_back(&log);
    assert_eq!(rows.len(), 1);
    let row = &rows[0];
    let ts = chrono::DateTime::parse_from_rfc3339(&row[0]).unwrap();
    assert_eq!(ts.timestamp(), 1709296205);
    assert_eq!(ts.timestamp_subsec_micros(), 123);
    assert_eq!(row[1].parse::<i16>().unwrap(), 1234);
    let close = |s: &str, billionths: i64| (s.parse::<f64>().unwrap() - billionths as f64 / 1e9).abs() < 1e-9;
    assert!(close(&row[2], r.reading.voltage_nv));
    assert!(close(&row[3], r.reading.pressure_npsi));
    assert!(close(&row[4], r.reading.depth_nm));
}

#[test]
fn reopening_appends_below_earlier_rows() {
    let first = SampleRecord::new(noon(), -2048);
    let second = SampleRecord::new(noon(), 2047);
    let mut file = open_preamble(0);
    file.extend(encode_row(&first));
    let earlier = file.clone();
    let pre = open_preamble(file.len() as u64);
    file.extend(pre);
    file.extend(encode_row(&second));
    assert_eq!(&file[..earlier.len()], &earlier[..]);
    let rows = read_back(&file);
    assert_eq!(rows.len(), 2);
    assert_eq!(rows[0][1], "-2048");
    assert_eq!(rows[1][1], "2047");
    assert_eq!(rows[1][2], "3.300000000");
}

#[test]
fn unix_time_becomes_calendar_fields() {
    let t = UtcTime::from_unix(1709296205, 123_456_789).unwrap();
    assert_eq!(t, UtcTime { year: 2024, month: 3, day: 1, hour: 12, minute: 30, second: 5, micros: 123_456 });
    let epoch_day = UtcTime::from_unix(1431648000, 0).unwrap();
    assert_eq!(epoch_day, UtcTime { year: 2015, month: 5, day: 15, hour: 0, minute: 0, second: 0, micros: 0 });
}

#[test]
fn unix_time_rejects_whole_second_nanos() {
    assert_eq!(UtcTime::from_unix(1709296205, 1_000_000_000), None);
}

#[test]
fn unix_time_rejects_years_past_four_digits() {
    assert_eq!(UtcTime::from_unix(253_402_300_800, 0), None);
    assert_eq!(UtcTime::from_unix(-62_167_219_201, 0), None);
}

#[test]
fn unix_time_in_four_digit_years_is_accepted() {
    assert!(UtcTime::from_unix(0, 999_999_999).is_some());
    assert!(UtcTime::from_unix(-62_167_219_200, 0).is_some());
    assert!(UtcTime::from_unix(253_402_300_799, 0).is_some());
}
