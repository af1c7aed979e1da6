use orbit_capture::calendar::CalendarTime;
use orbit_capture::encoding::{audio_temp_file_name, temp_file_name, ContainerFormat};
use orbit_capture::names::capture_file_stem;

fn moment(
    year: i32,
    month: u32,
    day: u32,
    hour: u32,
    minute: u32,
    second: u32,
    millisecond: u32,
) -> CalendarTime {
    CalendarTime::new(year, month, day, hour, minute, second, millisecond).unwrap()
}

#[test]
fn encoding_names_the_working_file_so_it_sorts_by_time() {
    let started_at = moment(2026, 8, 8, 14, 32, 5, 250);
    assert_eq!(temp_file_name(started_at), "recording-20260808-143205.250.mov");
}

#[test]
fn tests_names_the_working_file_so_it_sorts_by_time() {
    let started_at = moment(2026, 8, 8, 14, 32, 5, 250);
    assert_eq!(temp_file_name(started_at), "recording-20260808-143205.250.mov");
}

#[test]
fn names_audio_working_files_separately_from_movies() {
    let started = moment(2026, 8, 10, 12, 34, 56, 789);
    assert_eq!(audio_temp_file_name(started), "audio-20260810-123456.789.mov");
}

#[test]
fn platform_names_the_working_file_after_the_container_it_is() {
    let name = temp_file_name(moment(2026, 8, 8, 14, 32, 5, 250));
    assert!(name.ends_with(&format!(".{}", ContainerFormat::QuickTime.extension())));
}

#[test]
fn tests_names_the_working_file_after_the_container_it_is() {
    let name = temp_file_name(moment(2026, 8, 8, 14, 32, 5, 250));
    assert!(name.ends_with(&format!(".{}", ContainerFormat::QuickTime.extension())));
}

#[test]
fn names_each_container_by_its_extension() {
    assert_eq!(ContainerFormat::QuickTime.extension(), "mov");
    assert_eq!(ContainerFormat::Mp4.extension(), "mp4");
}

#[test]
fn working_file_names_sort_in_the_order_recordings_started() {
    let earlier = temp_file_name(moment(2026, 8, 8, 9, 59, 59, 999));
    let later = temp_file_name(moment(2026, 8, 8, 10, 0, 0, 0));
    let next_year = temp_file_name(moment(2027, 1, 1, 0, 0, 0, 0));
    assert!(earlier < later);
    assert!(later < next_year);
}

#[test]
fn two_recordings_in_one_second_get_different_names() {
    let first = temp_file_name(moment(2026, 8, 8, 14, 32, 5, 250));
    let second = temp_file_name(moment(2026, 8, 8, 14, 32, 5, 251));
    assert_ne!(first, second);
}

#[test]
fn an_audio_file_never_takes_a_movies_name() {
    let at = moment(2026, 8, 10, 12, 34, 56, 789);
    assert_ne!(audio_temp_file_name(at), temp_file_name(at));
}

#[test]
fn names_a_capture_as_screencapture_does() {
    let captured_at = moment(2026, 8, 8, 14, 32, 5, 250);
    assert_eq!(capture_file_stem(captured_at), "Orbit Capture 2026-08-08 at 14.32.05");
}

#[test]
fn accepts_only_days_that_exist() {
    assert!(CalendarTime::new(2024, 2, 29, 0, 0, 0, 0).is_some());
    assert!(CalendarTime::new(2023, 2, 29, 0, 0, 0, 0).is_none());
    assert!(CalendarTime::new(2000, 2, 29, 0, 0, 0, 0).is_some());
    assert!(CalendarTime::new(1900, 2, 29, 0, 0, 0, 0).is_none());
    assert!(CalendarTime::new(-4, 2, 29, 0, 0, 0, 0).is_some());
    assert!(CalendarTime::new(2023, 4, 31, 0, 0, 0, 0).is_none());
    assert!(CalendarTime::new(2023, 12, 31, 0, 0, 0, 0).is_some());
    assert!(CalendarTime::new(2023, 0, 14, 0, 0, 0, 0).is_none());
    assert!(CalendarTime::new(2023, 13, 1, 0, 0, 0, 0).is_none());
    assert!(CalendarTime::new(2023, 5, 0, 0, 0, 0, 0).is_none());
    assert!(CalendarTime::new(400000, 1, 1, 0, 0, 0, 0).is_none());
    assert!(CalendarTime::new(-400000, 1, 1, 0, 0, 0, 0).is_none());
    assert!(CalendarTime::new(262142, 12, 31, 0, 0, 0, 0).is_some());
    assert!(CalendarTime::new(262143, 1, 1, 0, 0, 0, 0).is_none());
    assert!(CalendarTime::new(-262143, 1, 1, 0, 0, 0, 0).is_some());
    assert!(CalendarTime::new(-262144, 12, 31, 0, 0, 0, 0).is_none());
}

#[test]
fn accepts_only_times_that_exist_leap_seconds_included() {
    assert!(CalendarTime::new(2015, 6, 3, 12, 34, 56, 789).is_some());
    assert!(CalendarTime::new(2015, 6, 3, 12, 34, 59, 1_789).is_some());
    assert!(CalendarTime::new(2015, 6, 3, 12, 34, 58, 1_789).is_none());
    assert!(CalendarTime::new(2015, 6, 3, 12, 34, 59, 2_789).is_none());
    assert!(CalendarTime::new(2015, 6, 3, 12, 34, 60, 789).is_none());
    assert!(CalendarTime::new(2015, 6, 3, 12, 60, 56, 789).is_none());
    assert!(CalendarTime::new(2015, 6, 3, 24, 34, 56, 789).is_none());
}

fn chrono_accepts(
    year: i32,
    month: u32,
    day: u32,
    hour: u32,
    minute: u32,
    second: u32,
    millisecond: u32,
) -> bool {
    chrono::NaiveDate::from_ymd_opt(year, month, day)
        .and_then(|date| date.and_hms_milli_opt(hour, minute, second, millisecond))
        .is_some()
}

#[test]
fn the_calendar_accepts_what_chrono_accepts() {
    let mut years: Vec<i32> = (-801..=2801).collect();
    years.extend([-262145, -262144, -262143, -262142, 262141, 262142, 262143, 262144]);
    for &year in &years {
        for month in 0..=13 {
            for day in 0..=32 {
                assert_eq!(
                    CalendarTime::new(year, month, day, 0, 0, 0, 0).is_some(),
                    chrono_accepts(year, month, day, 0, 0, 0, 0),
                    "{year}-{month}-{day}"
                );
            }
        }
    }
    for hour in [0, 23, 24, 25] {
        for minute in [0, 59, 60] {
            for second in [0, 58, 59, 60] {
                for millisecond in [0, 999, 1000, 1999, 2000, 4_294_967] {
                    assert_eq!(
                        CalendarTime::new(2026, 8, 8, hour, minute, second, millisecond).is_some(),
                        chrono_accepts(2026, 8, 8, hour, minute, second, millisecond),
                        "{hour}:{minute}:{second}.{millisecond}"
                    );
                }
            }
        }
    }
}

#[test]
fn a_leap_second_is_named_as_second_sixty() {
    let leap = moment(2016, 12, 31, 23, 59, 59, 1_500);
    assert_eq!(temp_file_name(leap), "recording-20161231-235960.500.mov");
    let before = temp_file_name(moment(2016, 12, 31, 23, 59, 59, 999));
    let after = temp_file_name(moment(2017, 1, 1, 0, 0, 0, 0));
    assert!(before < temp_file_name(leap));
    assert!(temp_file_name(leap) < after);
}

#[test]
fn an_early_year_is_padded_to_four_digits() {
    assert_eq!(
        audio_temp_file_name(moment(999, 1, 2, 3, 4, 5, 6)),
        "audio-09990102-030405.006.mov"
    );
    assert_eq!(capture_file_stem(moment(7, 1, 2, 3, 4, 5, 6)), "Orbit Capture 0007-01-02 at 03.04.05");
}

#[test]
fn a_year_outside_four_digits_is_named_with_its_sign() {
    assert_eq!(
        temp_file_name(moment(-1, 1, 2, 3, 4, 5, 6)),
        "recording--00010102-030405.006.mov"
    );
    assert_eq!(
        temp_file_name(moment(10000, 1, 2, 3, 4, 5, 6)),
        "recording-+100000102-030405.006.mov"
    );
    assert_eq!(
        capture_file_stem(moment(-262143, 1, 1, 0, 0, 0, 0)),
        "Orbit Capture -262143-01-01 at 00.00.00"
    );
}
