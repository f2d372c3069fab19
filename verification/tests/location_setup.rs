use namaz_vakti_logic::location::LocationEntry;
use namaz_vakti_logic::location_setup::{picker_hit, row_y, Level, LocationFlow};

fn entry(name: &str, id: &str) -> LocationEntry {
    LocationEntry { name: name.to_string(), name_en: String::new(), id: id.to_string() }
}

#[test]
fn result_rows_step_by_row_and_gap() {
    assert_eq!(row_y(0), 40);
    assert_eq!(row_y(1), 77);
    assert_eq!(row_y(6), 262);
}

#[test]
fn picker_hit_maps_taps_to_rows() {
    assert_eq!(picker_hit(8, 40, 7), Some(0));
    assert_eq!(picker_hit(471, 73, 7), Some(0));
    assert_eq!(picker_hit(100, 74, 7), None);
    assert_eq!(picker_hit(100, 77, 7), Some(1));
    assert_eq!(picker_hit(100, 262, 7), Some(6));
    assert_eq!(picker_hit(100, 262, 6), None);
    assert_eq!(picker_hit(7, 50, 7), None);
    assert_eq!(picker_hit(472, 50, 7), None);
    assert_eq!(picker_hit(100, 50, 0), None);
}

#[test]
fn flow_walks_country_city_district() {
    let mut flow = LocationFlow::new();
    assert_eq!(flow.level(), Level::Country);
    assert_eq!(flow.breadcrumb(), None);
    assert_eq!(flow.pick(entry("HOLLANDA ", "4")), None);
    assert_eq!(flow.level(), Level::City);
    assert_eq!(flow.breadcrumb().as_deref(), Some("HOLLANDA"));
    assert_eq!(flow.pick(entry("HOLLANDA", "721")), None);
    assert_eq!(flow.level(), Level::District);
    assert_eq!(flow.breadcrumb().as_deref(), Some("HOLLANDA / HOLLANDA"));
    let sel = flow.pick(entry("HAARLEM ", "13877")).unwrap();
    assert_eq!(sel.country_id, "4");
    assert_eq!(sel.country_name, "HOLLANDA");
    assert_eq!(sel.city_id, "721");
    assert_eq!(sel.district_id, "13877");
    assert_eq!(sel.district_name, "HAARLEM");
    assert!(sel.is_valid());
    assert_eq!(flow.level(), Level::District);
}

#[test]
fn back_goes_up_one_level_and_cancels_at_the_top() {
    let mut flow = LocationFlow::new();
    flow.pick(entry("TURKIYE", "2"));
    flow.pick(entry("ISTANBUL", "539"));
    assert!(!flow.back());
    assert_eq!(flow.level(), Level::City);
    assert_eq!(flow.country.as_ref().map(|c| c.id.as_str()), Some("2"));
    assert!(!flow.back());
    assert_eq!(flow.level(), Level::Country);
    assert!(flow.back());
    assert_eq!(flow.level(), Level::Country);
}

#[test]
fn back_after_a_pick_returns_to_the_same_level() {
    let mut flow = LocationFlow::new();
    flow.pick(entry("A", "1"));
    flow.pick(entry("B", "2"));
    assert!(!flow.back());
    assert_eq!(flow.level(), Level::City);
}

#[test]
fn each_level_fetches_its_own_list() {
    let mut flow = LocationFlow::new();
    assert_eq!(flow.list_url(), "https://ezanvakti.emushaf.net/ulkeler");
    flow.pick(entry("HOLLANDA", "4"));
    assert_eq!(flow.list_url(), "https://ezanvakti.emushaf.net/sehirler/4");
    flow.pick(entry("HOLLANDA", "721"));
    assert_eq!(flow.list_url(), "https://ezanvakti.emushaf.net/ilceler/721");
}
