use pop_launcher::recent::RecentUseStorage;

#[test]
fn add_counts_and_orders_activations() {
    let mut r = RecentUseStorage::new();
    r.add("firefox");
    r.add("files");
    r.add("firefox");
    assert_eq!(r.get_freq("firefox"), 2);
    assert_eq!(r.get_freq("files"), 1);
    assert_eq!(r.get_recent("firefox"), 3);
    assert_eq!(r.get_recent("files"), 2);
    assert_eq!(r.get_recent("never"), 0);
    assert_eq!(r.get_freq("never"), 0);
}

#[test]
fn short_term_keeps_the_twenty_most_recent() {
    let mut r = RecentUseStorage::new();
    for i in 0..25 {
        r.add(&format!("cmd{}", i));
    }
    assert_eq!(r.get_recent("cmd0"), 0);
    assert_eq!(r.get_recent("cmd4"), 0);
    assert_eq!(r.get_recent("cmd5"), 6);
    assert_eq!(r.get_recent("cmd24"), 25);
}

#[test]
fn long_term_is_halved_past_its_cap() {
    let mut r = RecentUseStorage::new();
    for _ in 0..100 {
        r.add("a");
    }
    assert_eq!(r.get_freq("a"), 100);
    r.add("b");
    assert_eq!(r.get_freq("a"), 50);
    assert_eq!(r.get_freq("b"), 0);
}

#[test]
fn storage_survives_a_round_trip_through_its_parts() {
    let mut r = RecentUseStorage::new();
    r.add("x");
    r.add("y");
    r.add("x");
    let (long, order) = r.to_parts();
    assert_eq!(order.len(), 2);
    let back = RecentUseStorage::from_parts(long, order);
    assert_eq!(back.get_freq("x"), 2);
    assert!(back.get_recent("x") > back.get_recent("y"));
}

#[test]
fn has_room_on_a_fresh_storage() {
    assert!(RecentUseStorage::new().has_room());
}
