use std::time::{Duration, UNIX_EPOCH};

use synd::{IntParseError, SysTime};

#[test]
fn stored_form() {
    let t = SysTime::from_epoch_secs(1_700_000_000).unwrap();
    assert_eq!(t, SysTime { after_epoch: true, secs: 1_700_000_000, nanos: 0 });
    assert_eq!(t.to_epoch_secs(), Some(1_700_000_000));
    let before = SysTime { after_epoch: false, secs: 1, nanos: 0 };
    assert_eq!(before.to_epoch_secs(), None);
}

#[test]
fn round_trip_drops_fraction() {
    let t = SysTime { after_epoch: true, secs: 42, nanos: 500 };
    let back = SysTime::from_epoch_secs(t.to_epoch_secs().unwrap()).unwrap();
    assert_eq!(back, SysTime { after_epoch: true, secs: 42, nanos: 0 });
}

#[test]
fn from_str_reads_seconds() {
    assert_eq!(SysTime::from_str("60"), Ok(SysTime { after_epoch: true, secs: 60, nanos: 0 }));
    assert_eq!(SysTime::from_str("1700000000"), Ok(SysTime { after_epoch: true, secs: 1700000000, nanos: 0 }));
    assert_eq!(SysTime::from_str("x"), Err(IntParseError::InvalidDigit));
    assert_eq!(SysTime::from_str(""), Err(IntParseError::Empty));
    assert_eq!(SysTime::from_str("-1"), Err(IntParseError::InvalidDigit));
}

#[test]
fn out_of_range_seconds() {
    assert_eq!(SysTime::from_epoch_secs(u64::MAX), None);
    assert_eq!(
        SysTime::from_str("18446744073709551615"),
        Ok(SysTime { after_epoch: true, secs: u64::MAX, nanos: 0 })
    );
}

#[test]
fn now_is_after_epoch_and_well_formed() {
    let t = SysTime::now();
    assert!(t.after_epoch);
    assert!(t.nanos < 1_000_000_000);
    assert!(t.secs > 1_600_000_000);
}

#[test]
fn the_epoch_is_always_held() {
    assert_eq!(SysTime::from_epoch_secs(0), Some(SysTime { after_epoch: true, secs: 0, nanos: 0 }));
}

#[test]
fn system_time_is_taken_unchanged() {
    let t = SysTime::from_system_time(UNIX_EPOCH + Duration::from_millis(1500));
    assert_eq!(t, SysTime { after_epoch: true, secs: 1, nanos: 500_000_000 });
    assert_eq!(t.to_epoch_secs(), Some(1));
    let b = SysTime::from_system_time(UNIX_EPOCH - Duration::from_secs(1));
    assert_eq!(b, SysTime { after_epoch: false, secs: 1, nanos: 0 });
    assert_eq!(b.to_epoch_secs(), None);
}
