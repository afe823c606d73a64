use avt::tabs::Tabs;

#[test]
fn new_tabs_stand_at_every_eighth_column() {
    let tabs = Tabs::new(30);
    assert_eq!(tabs.after(0, 1), Some(8));
    assert_eq!(tabs.after(0, 2), Some(16));
    assert_eq!(tabs.after(0, 3), Some(24));
    assert_eq!(tabs.after(0, 4), None);
    assert_eq!(tabs.after(8, 1), Some(16));
    assert_eq!(tabs.before(30, 1), Some(24));
    assert_eq!(tabs.before(24, 1), Some(16));
    assert_eq!(tabs.before(8, 1), None);
}

#[test]
fn narrow_screens_have_no_tabs() {
    for cols in 0..9 {
        assert_eq!(Tabs::new(cols).after(0, 1), None);
    }
    assert_eq!(Tabs::new(9).after(0, 1), Some(8));
    assert_eq!(Tabs::new(16).after(8, 1), None);
    assert_eq!(Tabs::new(17).after(8, 1), Some(16));
}

#[test]
fn set_keeps_the_stops_in_order_and_unique() {
    let mut tabs = Tabs::new(20);
    tabs.set(12);
    tabs.set(3);
    tabs.set(12);
    tabs.set(19);
    assert_eq!(tabs.after(0, 1), Some(3));
    assert_eq!(tabs.after(0, 2), Some(8));
    assert_eq!(tabs.after(0, 3), Some(12));
    assert_eq!(tabs.after(0, 4), Some(16));
    assert_eq!(tabs.after(0, 5), Some(19));
    assert_eq!(tabs.after(0, 6), None);
    assert_eq!(tabs.before(19, 4), Some(3));
    assert_eq!(tabs.before(19, 5), None);
}

#[test]
fn unset_takes_one_stop_away() {
    let mut tabs = Tabs::new(30);
    tabs.unset(16);
    tabs.unset(5);
    assert_eq!(tabs.after(8, 1), Some(24));
    assert_eq!(tabs.before(24, 1), Some(8));
}

#[test]
fn clear_takes_every_stop_away() {
    let mut tabs = Tabs::new(30);
    tabs.clear();
    assert_eq!(tabs.after(0, 1), None);
    assert_eq!(tabs.before(29, 1), None);
}

#[test]
fn the_zeroth_stop_does_not_exist() {
    let tabs = Tabs::new(30);
    assert_eq!(tabs.after(0, 0), None);
    assert_eq!(tabs.before(29, 0), None);
}

#[test]
fn contract_drops_the_stops_past_the_width() {
    let mut tabs = Tabs::new(30);
    tabs.contract(16);
    assert_eq!(tabs.after(0, 1), Some(8));
    assert_eq!(tabs.after(0, 2), None);
}
