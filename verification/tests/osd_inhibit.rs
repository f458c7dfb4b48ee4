use cosmic_osd::subscriptions::osd_inhibit::{suppress_for, Event, MAX_SUPPRESS_MILLIS, OBJECT_PATH};

#[test]
fn requests_within_the_cap_are_granted() {
    assert_eq!(suppress_for(0), Event::SuppressFor(0));
    assert_eq!(suppress_for(250), Event::SuppressFor(250));
    assert_eq!(suppress_for(5_000), Event::SuppressFor(5_000));
}

#[test]
fn long_requests_are_capped() {
    assert_eq!(MAX_SUPPRESS_MILLIS, 5_000);
    assert_eq!(suppress_for(5_001), Event::SuppressFor(5_000));
    assert_eq!(suppress_for(u64::MAX), Event::SuppressFor(5_000));
}

#[test]
fn the_interface_lives_at_the_osd_path() {
    assert_eq!(OBJECT_PATH, "/com/system76/CosmicOsd");
}
