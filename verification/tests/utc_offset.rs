use time::utc_offset::UtcOffset;

#[test]
fn offset_fields() {
    let offset = UtcOffset::from_hms(5, 30, 15).unwrap();
    assert_eq!(offset.as_hms(), (5, 30, 15));
    assert_eq!(offset.whole_hours(), 5);
    assert_eq!(offset.minutes_past_hour(), 30);
    assert_eq!(offset.seconds_past_minute(), 15);
    assert_eq!(offset.whole_minutes(), 330);
    assert_eq!(offset.whole_seconds(), 19_815);
    assert!(offset.is_positive());
    assert!(!offset.is_negative());
    assert!(!offset.is_utc());
    let offset = UtcOffset::from_hms(-5, -30, -15).unwrap();
    assert_eq!(offset.as_hms(), (-5, -30, -15));
    assert_eq!(offset.whole_minutes(), -330);
    assert_eq!(offset.whole_seconds(), -19_815);
    assert!(offset.is_negative());
    let offset = UtcOffset::from_hms(0, -30, 0).unwrap();
    assert_eq!(offset.whole_seconds(), -1_800);
    assert!(offset.is_negative());
    assert!(UtcOffset::utc().is_utc());
    assert_eq!(UtcOffset::utc(), UtcOffset::from_hms(0, 0, 0).unwrap());
}

#[test]
fn offset_signs_must_agree() {
    let error = UtcOffset::from_hms(5, -30, 0).unwrap_err();
    assert_eq!(error.name, "minutes");
    assert_eq!((error.minimum, error.maximum, error.value), (0, 59, -30));
    assert!(error.conditional_range);
    let error = UtcOffset::from_hms(-5, 30, 0).unwrap_err();
    assert_eq!(error.name, "minutes");
    assert_eq!((error.minimum, error.maximum, error.value), (-59, 0, 30));
    assert!(error.conditional_range);
    let error = UtcOffset::from_hms(5, 30, -1).unwrap_err();
    assert_eq!(error.name, "seconds");
    assert_eq!((error.minimum, error.maximum, error.value), (0, 59, -1));
    assert!(error.conditional_range);
    let error = UtcOffset::from_hms(0, -30, 1).unwrap_err();
    assert_eq!(error.name, "seconds");
    assert_eq!((error.minimum, error.maximum, error.value), (-59, 0, 1));
    let error = UtcOffset::from_hms(-1, 0, 1).unwrap_err();
    assert_eq!(error.name, "seconds");
    assert!(UtcOffset::from_hms(5, 0, 30).is_ok());
    assert!(UtcOffset::from_hms(0, 0, -30).is_ok());
}

#[test]
fn offset_fields_are_checked_in_order() {
    let error = UtcOffset::from_hms(24, 60, 60).unwrap_err();
    assert_eq!(error.name, "hours");
    assert_eq!((error.minimum, error.maximum, error.value), (-23, 23, 24));
    assert!(!error.conditional_range);
    let error = UtcOffset::from_hms(-24, 0, 0).unwrap_err();
    assert_eq!((error.name, error.value), ("hours", -24));
    let error = UtcOffset::from_hms(23, 60, 60).unwrap_err();
    assert_eq!((error.name, error.minimum, error.maximum), ("minutes", -59, 59));
    assert!(!error.conditional_range);
    let error = UtcOffset::from_hms(23, 59, -60).unwrap_err();
    assert_eq!((error.name, error.value), ("seconds", -60));
    assert!(!error.conditional_range);
    assert!(UtcOffset::from_hms(23, 59, 59).is_ok());
    assert!(UtcOffset::from_hms(-23, -59, -59).is_ok());
    assert_eq!(UtcOffset::from_hms_wide(99, 0, 0).unwrap_err().value, 99);
    assert_eq!(UtcOffset::from_hms_wide(-1, -30, 0).unwrap().whole_seconds(), -5_400);
}

#[test]
fn offset_from_seconds() {
    assert_eq!(UtcOffset::from_whole_seconds(19_815).unwrap().as_hms(), (5, 30, 15));
    assert_eq!(UtcOffset::from_whole_seconds(-19_815).unwrap().as_hms(), (-5, -30, -15));
    assert_eq!(UtcOffset::from_whole_seconds(-59).unwrap().as_hms(), (0, 0, -59));
    assert_eq!(UtcOffset::from_whole_seconds(86_399).unwrap().as_hms(), (23, 59, 59));
    let error = UtcOffset::from_whole_seconds(86_400).unwrap_err();
    assert_eq!(error.name, "seconds");
    assert_eq!((error.minimum, error.maximum, error.value), (-86_399, 86_399, 86_400));
    assert!(UtcOffset::from_whole_seconds(-86_400).is_err());
    for seconds in -86_399..=86_399 {
        assert_eq!(UtcOffset::from_whole_seconds(seconds).unwrap().whole_seconds(), seconds);
    }
}
