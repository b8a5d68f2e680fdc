use bgrun::duration::{BgrunDuration, BgrunSize};

#[test]
fn test_parse_duration() {
    assert_eq!("500ms".parse::<BgrunDuration>().unwrap().0, 500);
    assert_eq!("5s".parse::<BgrunDuration>().unwrap().0, 5000);
    assert_eq!("2m".parse::<BgrunDuration>().unwrap().0, 120000);
    assert_eq!("1h".parse::<BgrunDuration>().unwrap().0, 3600000);
    assert_eq!("30".parse::<BgrunDuration>().unwrap().0, 30000);
    assert!("".parse::<BgrunDuration>().is_err());
    assert!("abc".parse::<BgrunDuration>().is_err());
}

#[test]
fn test_parse_size() {
    assert_eq!("1024".parse::<BgrunSize>().unwrap().0, 1024);
    assert_eq!("50b".parse::<BgrunSize>().unwrap().0, 50);
    assert_eq!("1k".parse::<BgrunSize>().unwrap().0, 1024);
    assert_eq!("1K".parse::<BgrunSize>().unwrap().0, 1024);
    assert_eq!("50m".parse::<BgrunSize>().unwrap().0, 50 * 1024 * 1024);
    assert_eq!("50M".parse::<BgrunSize>().unwrap().0, 50 * 1024 * 1024);
    assert_eq!("50MB".parse::<BgrunSize>().unwrap().0, 50 * 1024 * 1024);
    assert_eq!("2g".parse::<BgrunSize>().unwrap().0, 2 * 1024 * 1024 * 1024);
    assert_eq!(" 10M ".parse::<BgrunSize>().unwrap().0, 10 * 1024 * 1024);
    assert!("".parse::<BgrunSize>().is_err());
    assert!("abc".parse::<BgrunSize>().is_err());
    assert!("10x".parse::<BgrunSize>().is_err());
}

#[test]
fn duration_edge_cases() {
    // a leading plus sign is accepted, as by u64 parsing
    assert_eq!("+5s".parse::<BgrunDuration>().unwrap().0, 5000);
    // surrounding whitespace is trimmed
    assert_eq!("  7ms ".parse::<BgrunDuration>().unwrap().0, 7);
    // no space between number and unit
    assert!("5 s".parse::<BgrunDuration>().is_err());
    // unit suffixes are case-sensitive for durations
    assert!("5S".parse::<BgrunDuration>().is_err());
    assert!("-5s".parse::<BgrunDuration>().is_err());
    // overflow of the number itself is refused
    assert!("18446744073709551616ms".parse::<BgrunDuration>().is_err());
    // multiplication wraps as a release build does
    assert_eq!(
        "18446744073709551615s".parse::<BgrunDuration>().unwrap().0,
        18446744073709551615u64.wrapping_mul(1000)
    );
}

#[test]
fn size_edge_cases() {
    assert_eq!("3kb".parse::<BgrunSize>().unwrap().0, 3 * 1024);
    assert_eq!("3 KB".parse::<BgrunSize>().unwrap().0, 3 * 1024);
    assert_eq!("1Gb".parse::<BgrunSize>().unwrap().0, 1024 * 1024 * 1024);
    // saturates instead of overflowing
    assert_eq!("18446744073709551615g".parse::<BgrunSize>().unwrap().0, u64::MAX);
    assert!("kb".parse::<BgrunSize>().is_err());
    assert!("5bb".parse::<BgrunSize>().is_err());
}
