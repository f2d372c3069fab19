use namaz_vakti_logic::prayer_times::month_url;
use namaz_vakti_logic::prayer_times::DayTimes;
use namaz_vakti_logic::time_utils::parse_hhmm_to_seconds;

fn sample() -> DayTimes {
    DayTimes {
        date: "06.07.2024".to_string(),
        hijri_date: "30.12.1445".to_string(),
        imsak: "03:15".to_string(),
        ogle: "13:25".to_string(),
        ikindi: "17:10".to_string(),
        aksam: "21:45".to_string(),
        yatsi: "23:30".to_string(),
    }
}

#[test]
fn prayers_are_in_order_and_exclude_sunrise() {
    let names: Vec<&str> = sample().prayers().iter().map(|(n, _)| *n).collect();
    assert_eq!(names, ["İMSAK", "ÖĞLE", "İKİNDİ", "AKŞAM", "YATSI"]);
}

#[test]
fn prayer_seconds_parses_each_hhmm() {
    let seconds = sample().prayer_seconds();
    assert_eq!(seconds[0], ("İMSAK", 3 * 3600 + 15 * 60));
    assert_eq!(seconds[1], ("ÖĞLE", 13 * 3600 + 25 * 60));
    assert_eq!(seconds[4], ("YATSI", 23 * 3600 + 30 * 60));
}

#[test]
fn prayer_seconds_defaults_to_zero_on_bad_input() {
    let mut day = sample();
    day.imsak = "not-a-time".to_string();
    assert_eq!(day.prayer_seconds()[0], ("İMSAK", 0));
}

#[test]
fn prayers_pair_each_label_with_its_time() {
    let day = sample();
    let p = day.prayers();
    assert_eq!(p[0].1, "03:15");
    assert_eq!(p[3], ("AKŞAM", "21:45"));
}

#[test]
fn hhmm_parsing_accepts_clock_times_only() {
    assert_eq!(parse_hhmm_to_seconds("00:00"), Some(0));
    assert_eq!(parse_hhmm_to_seconds("23:59"), Some(23 * 3600 + 59 * 60));
    assert_eq!(parse_hhmm_to_seconds("7:05"), Some(7 * 3600 + 5 * 60));
    assert_eq!(parse_hhmm_to_seconds("24:00"), None);
    assert_eq!(parse_hhmm_to_seconds("12:60"), None);
    assert_eq!(parse_hhmm_to_seconds("1200"), None);
    assert_eq!(parse_hhmm_to_seconds(":30"), None);
    assert_eq!(parse_hhmm_to_seconds("12:"), None);
    assert_eq!(parse_hhmm_to_seconds("a2:30"), None);
    assert_eq!(parse_hhmm_to_seconds("123:30"), None);
}

#[test]
fn month_endpoint_is_built_from_the_district_id() {
    assert_eq!(month_url("13877"), "https://ezanvakti.emushaf.net/vakitler/13877");
}
