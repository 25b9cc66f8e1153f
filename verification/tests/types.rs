use zipstream::archive::FileOptions;
use zipstream::compression::Compressor;
use zipstream::types::FileDateTime;

fn custom(year: u16, month: u16, day: u16, hour: u16, minute: u16, second: u16) -> FileDateTime {
    FileDateTime::Custom { year, month, day, hour, minute, second }
}

#[test]
fn zero_packs_to_zero() {
    assert_eq!(FileDateTime::Zero.ms_dos(), (0, 0));
    assert_eq!(FileDateTime::default(), FileDateTime::Zero);
}

#[test]
fn a_moment_packs_into_date_and_time() {
    let (date, time) = custom(2024, 5, 17, 13, 45, 58).ms_dos();
    assert_eq!(date, 22705);
    assert_eq!(time, 28093);
    assert_eq!(date, (44 << 9) | (5 << 5) | 17);
    assert_eq!(time, (13 << 11) | (45 << 5) | 29);
}

#[test]
fn the_first_and_the_last_moment() {
    assert_eq!(custom(1980, 1, 1, 0, 0, 0).ms_dos(), (0x0021, 0x0000));
    assert_eq!(custom(2107, 12, 31, 23, 59, 59).ms_dos(), (0xff9f, 0xbf7d));
}

#[test]
fn seconds_are_stored_in_pairs() {
    assert_eq!(custom(2000, 1, 1, 0, 0, 0).ms_dos().1, 0);
    assert_eq!(custom(2000, 1, 1, 0, 0, 1).ms_dos().1, 0);
    assert_eq!(custom(2000, 1, 1, 0, 0, 2).ms_dos().1, 1);
    assert_eq!(custom(2000, 1, 1, 0, 0, 59).ms_dos().1, 29);
}

#[test]
fn a_year_before_1980_counts_as_1980() {
    assert_eq!(custom(1979, 3, 4, 0, 0, 0).ms_dos().0, (3 << 5) | 4);
    assert_eq!(custom(0, 3, 4, 0, 0, 0).ms_dos().0, (3 << 5) | 4);
}

#[test]
fn a_field_that_is_too_large_stays_within_its_bits() {
    let (date, time) = custom(u16::MAX, u16::MAX, u16::MAX, u16::MAX, u16::MAX, u16::MAX).ms_dos();
    assert_eq!(date & 0x1f, (u16::MAX % 32));
    assert_eq!((date >> 5) & 0x0f, u16::MAX % 16);
    assert_eq!(date >> 9, (u16::MAX - 1980) % 128);
    assert_eq!(time & 0x1f, (u16::MAX / 2) % 32);
    assert_eq!((time >> 5) & 0x3f, u16::MAX % 64);
    assert_eq!(time >> 11, u16::MAX % 32);
}

#[test]
fn default_options() {
    let options = FileOptions::default();
    assert_eq!(options.get_compression_method(), Compressor::Deflate());
    assert_eq!(options.get_compression_level(), None);
    assert_eq!(options.get_last_modified_time(), FileDateTime::Zero);
    assert_eq!(options.effective_permissions(), 0o644);
}

#[test]
fn each_builder_sets_its_own_field() {
    let moment = custom(1999, 12, 31, 23, 59, 58);
    let options = FileOptions::default()
        .compression_method(Compressor::Zstd())
        .compression_level(Some(-3))
        .last_modified_time(moment)
        .unix_permissions(0o750);
    assert_eq!(options.get_compression_method(), Compressor::Zstd());
    assert_eq!(options.get_compression_level(), Some(-3));
    assert_eq!(options.get_last_modified_time(), moment);
    assert_eq!(options.effective_permissions(), 0o750);

    let changed = options.compression_method(Compressor::Store());
    assert_eq!(changed.get_compression_method(), Compressor::Store());
    assert_eq!(changed.get_compression_level(), Some(-3));
    assert_eq!(changed.get_last_modified_time(), moment);
    assert_eq!(changed.effective_permissions(), 0o750);
}

#[test]
fn permissions_keep_their_nine_low_bits() {
    assert_eq!(FileOptions::default().unix_permissions(0o100755).effective_permissions(), 0o755);
    assert_eq!(FileOptions::default().unix_permissions(0o7777).effective_permissions(), 0o777);
    assert_eq!(FileOptions::default().unix_permissions(u32::MAX).effective_permissions(), 0o777);
    assert_eq!(FileOptions::default().unix_permissions(0).effective_permissions(), 0);
}

#[test]
fn seconds_since_1970_become_a_moment() {
    let cases = [
        (0u64, (1970u16, 1u16, 1u16, 0u16, 0u16, 0u16)),
        (59, (1970, 1, 1, 0, 0, 59)),
        (86399, (1970, 1, 1, 23, 59, 59)),
        (86400, (1970, 1, 2, 0, 0, 0)),
        (315532800, (1980, 1, 1, 0, 0, 0)),
        (951868799, (2000, 2, 29, 23, 59, 59)),
        (951868800, (2000, 3, 1, 0, 0, 0)),
        (1715953558, (2024, 5, 17, 13, 45, 58)),
        (4107542399, (2100, 2, 28, 23, 59, 59)),
        (4107542400, (2100, 3, 1, 0, 0, 0)),
        (4354819199, (2107, 12, 31, 23, 59, 59)),
    ];
    for (seconds, (year, month, day, hour, minute, second)) in cases {
        assert_eq!(
            FileDateTime::from_unix_seconds(seconds),
            custom(year, month, day, hour, minute, second),
            "{}",
            seconds
        );
    }
}

#[test]
fn moments_behind_2107_count_as_its_last_second() {
    let last = custom(2107, 12, 31, 23, 59, 59);
    assert_eq!(FileDateTime::from_unix_seconds(4354819200), last);
    assert_eq!(FileDateTime::from_unix_seconds(u64::MAX), last);
    assert_eq!(last.ms_dos(), (0xff9f, 0xbf7d));
}

#[test]
fn every_day_follows_the_day_before() {
    let mut previous = FileDateTime::from_unix_seconds(0);
    for day in 1..50403u64 {
        let next = FileDateTime::from_unix_seconds(day * 86400 + 43200);
        match (previous, next) {
            (
                FileDateTime::Custom { year: y0, month: m0, day: d0, .. },
                FileDateTime::Custom { year: y1, month: m1, day: d1, hour, minute, second },
            ) => {
                assert_eq!((hour, minute, second), (12, 0, 0));
                assert!((1..=12).contains(&m1) && (1..=31).contains(&d1));
                let same_month = y1 == y0 && m1 == m0 && d1 == d0 + 1;
                let next_month = y1 == y0 && m1 == m0 + 1 && d1 == 1 && d0 >= 28;
                let next_year = y1 == y0 + 1 && m1 == 1 && d1 == 1 && m0 == 12 && d0 == 31;
                assert!(same_month || next_month || next_year, "day {}", day);
            }
            _ => panic!("no moment for day {}", day),
        }
        previous = next;
    }
    assert_eq!(previous, custom(2107, 12, 31, 12, 0, 0));
}

#[test]
fn now_is_a_moment_of_this_century() {
    match FileDateTime::now() {
        FileDateTime::Custom { year, month, day, hour, minute, second } => {
            assert!((2024..=2107).contains(&year));
            assert!((1..=12).contains(&month));
            assert!((1..=31).contains(&day));
            assert!(hour < 24 && minute < 60 && second < 60);
        }
        FileDateTime::Zero => panic!("the clock stands before 1970"),
    }
}

#[test]
fn a_clock_reading_becomes_a_moment_or_no_time() {
    assert_eq!(FileDateTime::from_clock_reading(None), FileDateTime::Zero);
    assert_eq!(FileDateTime::from_clock_reading(Some(0)), custom(1970, 1, 1, 0, 0, 0));
    assert_eq!(
        FileDateTime::from_clock_reading(Some(1715953558)),
        custom(2024, 5, 17, 13, 45, 58)
    );
    assert_eq!(
        FileDateTime::from_clock_reading(Some(u64::MAX)),
        custom(2107, 12, 31, 23, 59, 59)
    );
}
