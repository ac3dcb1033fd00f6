use rusty_usn::error::ErrorKind;
use rusty_usn::timestamp::{raw_to_wintimestamp, DateTime, WinTimestamp};

#[test]
fn test_timestamp() {
    let raw_timestamp: &[u8] = &[0x53, 0xC7, 0x8B, 0x18, 0xC5, 0xCC, 0xCE, 0x01];

    let time_stamp: WinTimestamp = match raw_to_wintimestamp(raw_timestamp) {
        Ok(time_stamp) => time_stamp,
        Err(error) => panic!("{}", error.to_string()),
    };
    assert_eq!(time_stamp.to_string(), "2013-10-19 12:16:53.276040");
    assert_eq!(format!("{}", time_stamp.to_string()), "2013-10-19 12:16:53.276040");
    assert_eq!(time_stamp.0, 130266586132760403);
}

#[test]
fn filetime_to_calendar_time() {
    let t = WinTimestamp::new(0x01CECCC5188BC753);
    let dt = t.to_datetime();
    assert_eq!(
        dt,
        DateTime {
            year: 2013,
            month: 10,
            day: 19,
            hour: 12,
            minute: 16,
            second: 53,
            microsecond: 276040
        }
    );
    assert_eq!(t.micros_since_epoch(), 13026658613276040);
}

#[test]
fn filetime_zero_is_the_epoch() {
    let t = WinTimestamp::new(0);
    assert_eq!(t.to_string(), "1601-01-01 00:00:00.000000");
    assert_eq!(t.unix_micros(), -11_644_473_600_000_000);
}

#[test]
fn short_timestamp_buffer_is_an_error() {
    let e = raw_to_wintimestamp(&[1, 2, 3]).unwrap_err();
    assert_eq!(e.kind, ErrorKind::IoError);
}
