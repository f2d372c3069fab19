use namaz_vakti_logic::location::{cities_url, countries_url, districts_url};
use namaz_vakti_logic::location::{filter, LocationEntry, SelectedLocation};

fn entry(name: &str, name_en: &str, id: &str) -> LocationEntry {
    LocationEntry {
        name: name.to_string(),
        name_en: name_en.to_string(),
        id: id.to_string(),
    }
}

#[test]
fn ascii_query_matches_diacritic_localized_name() {
    let agri = entry("AĞRI", "AGRI", "503");
    assert!(namaz_vakti_logic::location::matches(&agri, "agri"));
    assert!(namaz_vakti_logic::location::matches(&agri, "AGRI"));
    // Also matches the localized name folded to ASCII.
    assert!(namaz_vakti_logic::location::matches(&agri, "AGR"));
}

#[test]
fn match_is_a_case_insensitive_substring() {
    let ist = entry("İSTANBUL", "ISTANBUL", "539");
    assert!(namaz_vakti_logic::location::matches(&ist, "ist"));
    assert!(namaz_vakti_logic::location::matches(&ist, "STAN"));
    assert!(!namaz_vakti_logic::location::matches(&ist, "xyz"));
}

#[test]
fn empty_query_matches_everything() {
    assert!(namaz_vakti_logic::location::matches(&entry("ANY", "ANY", "1"), ""));
    assert!(namaz_vakti_logic::location::matches(&entry("ANY", "ANY", "1"), "   "));
}

#[test]
fn filter_preserves_order_and_caps_at_limit() {
    let entries = vec![
        entry("ALKMAAR", "ALKMAAR", "1"),
        entry("ALMELO", "ALMELO", "2"),
        entry("ALMERE", "ALMERE", "3"),
        entry("HAARLEM", "HAARLEM", "4"),
    ];
    let (out, truncated) = filter(&entries, "AL", 2);
    assert_eq!(out.len(), 2);
    assert!(truncated);
    assert_eq!(out[0].id, "1");
    assert_eq!(out[1].id, "2");

    let (all, truncated) = filter(&entries, "AL", 10);
    assert_eq!(all.len(), 3);
    assert!(!truncated);
}

#[test]
fn display_name_trims_trailing_space() {
    assert_eq!(
        entry("ALBERGEN ", "ALBERGEN ", "1").display_name(),
        "ALBERGEN"
    );
}

#[test]
fn default_matches_the_legacy_hardcoded_haarlem_district() {
    let sel = SelectedLocation::default();
    assert_eq!(sel.district_id, "13877");
    assert_eq!(sel.header_label(), "HAARLEM");
    assert!(sel.is_valid());
}

#[test]
fn blank_district_id_is_invalid() {
    let sel = SelectedLocation {
        district_id: "  ".to_string(),
        ..SelectedLocation::default()
    };
    assert!(!sel.is_valid());
}

#[test]
fn query_is_trimmed_and_folded() {
    let koy = entry("KÖY", "", "9");
    assert!(namaz_vakti_logic::location::matches(&koy, "  koy "));
    assert!(namaz_vakti_logic::location::matches(&koy, "ÖY"));
    assert!(!namaz_vakti_logic::location::matches(&koy, "kx"));
}

#[test]
fn filter_with_zero_limit_reports_truncation_only_when_something_matched() {
    let entries = vec![entry("ALMERE", "ALMERE", "3")];
    let (out, truncated) = filter(&entries, "AL", 0);
    assert!(out.is_empty());
    assert!(truncated);
    let (out, truncated) = filter(&entries, "ZZ", 0);
    assert!(out.is_empty());
    assert!(!truncated);
}

#[test]
fn header_label_upper_cases_and_trims() {
    let sel = SelectedLocation {
        district_name: " haarlem ".to_string(),
        ..SelectedLocation::default_haarlem()
    };
    assert_eq!(sel.header_label(), "HAARLEM");
    assert_eq!(SelectedLocation::default_haarlem().city_id, "721");
    assert_eq!(SelectedLocation::default_haarlem().country_name, "HOLLANDA");
}

#[test]
fn list_endpoints_are_built_from_ids() {
    assert_eq!(countries_url(), "https://ezanvakti.emushaf.net/ulkeler");
    assert_eq!(cities_url("4"), "https://ezanvakti.emushaf.net/sehirler/4");
    assert_eq!(districts_url("721"), "https://ezanvakti.emushaf.net/ilceler/721");
}

fn selection(district_id: &str) -> SelectedLocation {
    SelectedLocation {
        country_id: "2".to_string(),
        country_name: "TURKIYE".to_string(),
        city_id: "539".to_string(),
        city_name: "ISTANBUL".to_string(),
        district_id: district_id.to_string(),
        district_name: "FATIH".to_string(),
    }
}

#[test]
fn stored_selection_is_used_only_when_usable() {
    assert_eq!(SelectedLocation::from_stored(Some(selection("9541"))), selection("9541"));
    assert_eq!(SelectedLocation::from_stored(Some(selection("  "))), SelectedLocation::default_haarlem());
    assert_eq!(SelectedLocation::from_stored(None).district_id, "13877");
}
