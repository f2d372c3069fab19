use namaz_vakti_logic::time_utils::{
    civil_from_days, days_from_civil, days_in_month, format_date_key, parse_hhmm_to_seconds,
    weekday_from_days, LocalTime, SECS_PER_DAY,
};

#[test]
fn day_numbers_count_from_the_unix_epoch() {
    assert_eq!(days_from_civil(1970, 1, 1), 0);
    assert_eq!(days_from_civil(1969, 12, 31), -1);
    assert_eq!(days_from_civil(2000, 2, 29), 11016);
    assert_eq!(days_from_civil(2024, 7, 6), 19910);
    assert_eq!(days_from_civil(1, 1, 1), -719162);
}

#[test]
fn civil_from_days_inverts_days_from_civil() {
    assert_eq!(civil_from_days(0), (1970, 1, 1));
    assert_eq!(civil_from_days(-1), (1969, 12, 31));
    assert_eq!(civil_from_days(11016), (2000, 2, 29));
    assert_eq!(civil_from_days(19910), (2024, 7, 6));
    assert_eq!(civil_from_days(-719162), (1, 1, 1));
    for z in [-800, -1, 0, 59, 60, 365, 10_957, 19_723, 40_000] {
        let (y, m, d) = civil_from_days(z);
        assert_eq!(days_from_civil(y, m, d), z);
    }
}

#[test]
fn month_lengths_follow_the_gregorian_leap_rule() {
    assert_eq!(days_in_month(2024, 2), 29);
    assert_eq!(days_in_month(2023, 2), 28);
    assert_eq!(days_in_month(1900, 2), 28);
    assert_eq!(days_in_month(2000, 2), 29);
    assert_eq!(days_in_month(2024, 4), 30);
    assert_eq!(days_in_month(2024, 12), 31);
}

#[test]
fn weekday_counts_from_sunday() {
    // 1970-01-01 was a Thursday.
    assert_eq!(weekday_from_days(0), 4);
    assert_eq!(weekday_from_days(-1), 3);
    assert_eq!(weekday_from_days(19910), 6);
}

#[test]
fn date_key_is_zero_padded() {
    assert_eq!(format_date_key(2024, 7, 6), "06.07.2024");
    assert_eq!(format_date_key(2025, 12, 31), "31.12.2025");
    assert_eq!(format_date_key(987, 1, 1), "01.01.987");
}

#[test]
fn hhmm_parses_into_seconds() {
    assert_eq!(parse_hhmm_to_seconds("00:00"), Some(0));
    assert_eq!(parse_hhmm_to_seconds("03:15"), Some(3 * 3600 + 15 * 60));
    assert_eq!(parse_hhmm_to_seconds("23:59"), Some(86340));
    assert_eq!(parse_hhmm_to_seconds("7:05"), Some(7 * 3600 + 5 * 60));
    assert_eq!(parse_hhmm_to_seconds("24:00"), None);
    assert_eq!(parse_hhmm_to_seconds("12:60"), None);
    assert_eq!(parse_hhmm_to_seconds("garbage"), None);
    assert_eq!(parse_hhmm_to_seconds(""), None);
    assert_eq!(parse_hhmm_to_seconds("12:"), None);
}

fn local(epoch: i64) -> (i32, u32, u32, u32, u32, u32, u32) {
    let t = LocalTime::from_epoch(epoch);
    (t.year, t.month, t.day, t.hour, t.minute, t.second, t.weekday)
}

#[test]
fn epoch_zero_is_one_in_the_morning_in_amsterdam() {
    assert_eq!(local(0), (1970, 1, 1, 1, 0, 0, 4));
}

#[test]
fn summer_time_starts_on_the_last_sunday_of_march() {
    assert_eq!(local(1_711_846_799), (2024, 3, 31, 1, 59, 59, 0));
    assert_eq!(local(1_711_846_800), (2024, 3, 31, 3, 0, 0, 0));
    assert_eq!(local(4_109_878_800), (2100, 3, 28, 3, 0, 0, 0));
}

#[test]
fn summer_time_ends_on_the_last_sunday_of_october() {
    assert_eq!(local(1_729_990_799), (2024, 10, 27, 2, 59, 59, 0));
    assert_eq!(local(1_729_990_800), (2024, 10, 27, 2, 0, 0, 0));
}

#[test]
fn local_time_crosses_days_and_years() {
    assert_eq!(local(1_720_267_200), (2024, 7, 6, 14, 0, 0, 6));
    assert_eq!(local(1_735_687_800), (2025, 1, 1, 0, 30, 0, 3));
    assert_eq!(local(1_709_247_599), (2024, 2, 29, 23, 59, 59, 4));
}

#[test]
fn local_time_helpers() {
    let t = LocalTime::from_epoch(1_720_267_200);
    assert_eq!(t.date_key(), "06.07.2024");
    assert_eq!(t.seconds_of_day(), 14 * 3600);
    assert_eq!(t.weekday_name(), "CUMARTESİ");
    assert_eq!(SECS_PER_DAY, 86_400);
}

#[test]
fn date_key_of_a_year_before_the_common_era_keeps_its_sign() {
    assert_eq!(format_date_key(-44, 3, 15), "15.03.-44");
}
