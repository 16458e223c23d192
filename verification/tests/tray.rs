use winsoftvol::tray::{startup_volume_menu_state, volcap_menu_state, BAR_HEIGHT, ICON_SIZE};

#[test]
fn icon_size_is_32() {
    assert_eq!(ICON_SIZE, 32);
}

#[test]
fn bar_height_is_4() {
    assert_eq!(BAR_HEIGHT, 4);
}

#[test]
fn bar_height_less_than_icon_size() {
    assert!(BAR_HEIGHT < ICON_SIZE);
}

#[test]
fn volcap_menu_checks_current_cap() {
    let items = volcap_menu_state(&vec![100, 80, 60, 40], 60);
    assert_eq!(items, vec![(100, false), (80, false), (60, true), (40, false)]);
}

#[test]
fn startup_volume_menu_off_checked_when_unset() {
    let items = startup_volume_menu_state(&vec![100, 50], None);
    assert_eq!(items, vec![(None, true), (Some(100), false), (Some(50), false)]);
}

#[test]
fn startup_volume_menu_checks_matching_preset() {
    let items = startup_volume_menu_state(&vec![100, 50], Some(50));
    assert_eq!(items, vec![(None, false), (Some(100), false), (Some(50), true)]);
    let none_match = startup_volume_menu_state(&vec![100, 50], Some(70));
    assert!(none_match.iter().all(|(_, checked)| !checked));
}
