use namaz_vakti_logic::prayer_times::DayTimes;
use namaz_vakti_logic::time_utils::LocalTime;
use namaz_vakti_logic::timeline::{
    build_timeline, countdown, day_start_secs, find_day, needs_refresh, next_index, refresh_due,
    TimelineEntry, REFRESH_RETRY_SECS,
};

fn day(date: &str, times: [&str; 5]) -> DayTimes {
    DayTimes {
        date: date.to_string(),
        hijri_date: "1.1.1446".to_string(),
        imsak: times[0].to_string(),
        ogle: times[1].to_string(),
        ikindi: times[2].to_string(),
        aksam: times[3].to_string(),
        yatsi: times[4].to_string(),
    }
}

fn table() -> Vec<DayTimes> {
    vec![
        day("05.07.2024", ["03:14", "13:25", "17:40", "22:02", "23:59"]),
        day("06.07.2024", ["03:15", "13:25", "17:40", "22:01", "23:58"]),
        day("07.07.2024", ["03:17", "13:26", "17:40", "22:01", "23:57"]),
    ]
}

// 2024-07-06 14:00 local (12:00 UTC).
fn noon() -> LocalTime {
    LocalTime::from_epoch(1_720_267_200)
}

const TODAY: i64 = 19910;

fn at(day: i64, h: i64, m: i64) -> i64 {
    day * 86400 + h * 3600 + m * 60
}

#[test]
fn find_day_finds_the_first_row_with_the_key() {
    let days = table();
    assert_eq!(find_day(&days, "06.07.2024"), Some(1));
    assert_eq!(find_day(&days, "08.07.2024"), None);
    assert!(!needs_refresh(&days, "07.07.2024"));
    assert!(needs_refresh(&days, "01.08.2024"));
    assert!(needs_refresh(&[], "06.07.2024"));
}

#[test]
fn day_start_is_local_midnight() {
    assert_eq!(day_start_secs(&noon()), TODAY * 86400);
}

#[test]
fn timeline_covers_yesterday_today_and_tomorrow() {
    let tl = build_timeline(&table(), &noon());
    assert_eq!(tl.len(), 15);
    assert_eq!(tl[0], TimelineEntry { label: "İMSAK", at: at(TODAY - 1, 3, 14) });
    assert_eq!(tl[4], TimelineEntry { label: "YATSI", at: at(TODAY - 1, 23, 59) });
    assert_eq!(tl[5], TimelineEntry { label: "İMSAK", at: at(TODAY, 3, 15) });
    assert_eq!(tl[6], TimelineEntry { label: "ÖĞLE", at: at(TODAY, 13, 25) });
    assert_eq!(tl[14], TimelineEntry { label: "YATSI", at: at(TODAY + 1, 23, 57) });
    for w in tl.windows(2) {
        assert!(w[0].at <= w[1].at);
    }
}

#[test]
fn missing_days_add_nothing() {
    let days = vec![table().remove(1)];
    let tl = build_timeline(&days, &noon());
    assert_eq!(tl.len(), 5);
    assert_eq!(tl[0].at, at(TODAY, 3, 15));
    assert!(build_timeline(&[], &noon()).is_empty());
}

#[test]
fn countdown_in_the_afternoon() {
    let tl = build_timeline(&table(), &noon());
    let now = at(TODAY, 14, 0);
    assert_eq!(next_index(&tl, now), Some(7));
    let c = countdown(&tl, now, TODAY * 86400).unwrap();
    assert_eq!(c.next, 7);
    assert_eq!(c.next_label, "İKİNDİ");
    assert_eq!(c.remaining, 3 * 3600 + 40 * 60);
    assert_eq!(c.elapsed, Some((35 * 60, 4 * 3600 + 15 * 60)));
    assert_eq!(c.next_today_label, Some("İKİNDİ"));
    assert_eq!(c.current_today_label, Some("ÖĞLE"));
}

#[test]
fn countdown_after_the_night_prayer_points_to_tomorrow() {
    let tl = build_timeline(&table(), &noon());
    let now = at(TODAY, 23, 59);
    let c = countdown(&tl, now, TODAY * 86400).unwrap();
    assert_eq!(c.next_label, "İMSAK");
    assert_eq!(c.remaining, at(TODAY + 1, 3, 17) - now);
    assert_eq!(c.next_today_label, None);
    assert_eq!(c.current_today_label, Some("YATSI"));
}

#[test]
fn countdown_before_the_first_entry_has_no_progress() {
    let days = vec![table().remove(1)];
    let tl = build_timeline(&days, &noon());
    let c = countdown(&tl, at(TODAY, 1, 0), TODAY * 86400).unwrap();
    assert_eq!(c.next, 0);
    assert_eq!(c.elapsed, None);
    assert_eq!(c.current_today_label, None);
    assert_eq!(c.next_today_label, Some("İMSAK"));
}

#[test]
fn countdown_without_a_later_entry_is_none() {
    let tl = build_timeline(&table(), &noon());
    assert_eq!(next_index(&tl, at(TODAY + 2, 0, 0)), None);
    assert!(countdown(&tl, at(TODAY + 2, 0, 0), TODAY * 86400).is_none());
    assert!(countdown(&[], 0, 0).is_none());
}

#[test]
fn refresh_waits_between_attempts() {
    assert_eq!(REFRESH_RETRY_SECS, 300);
    assert!(refresh_due(true, 1_000_300, 1_000_000));
    assert!(!refresh_due(true, 1_000_299, 1_000_000));
    assert!(!refresh_due(false, 2_000_000, 0));
    assert!(refresh_due(true, 500, 0));
}
