use bloom_filter::bloom::BloomFilter;

#[test]
fn test_new() {
    let filter = BloomFilter::new(10, 5);
    assert_eq!(filter.bits_num(), 10);
    assert_eq!(filter.times(), 5);
    assert!(filter.bits_num() >= 10);
}

#[test]
fn test_bits_num() {
    let filter = BloomFilter::new(10, 5);
    assert_eq!(filter.bits_num(), 10);
}

#[test]
fn test_add_and_contains() {
    let mut filter = BloomFilter::new(1000, 5);
    filter.add("test1");
    filter.add("test2");

    assert!(filter.contains("test1"));
    assert!(filter.contains("test2"));
    assert!(!filter.contains("test3"));
}

#[test]
fn test_zero_capacity_coerced_to_one() {
    let filter = BloomFilter::new(0, 5);
    assert_eq!(filter.bits_num(), 1);
}

#[test]
fn test_capacity_stable_over_lifetime() {
    let mut filter = BloomFilter::new(64, 3);
    assert_eq!(filter.bits_num(), 64);
    filter.add("alpha");
    filter.add("beta");
    assert_eq!(filter.bits_num(), 64);
    filter.clear_all();
    assert_eq!(filter.bits_num(), 64);
    filter.add("gamma");
    assert_eq!(filter.bits_num(), 64);
}

#[test]
fn test_clear_all_resets_fully() {
    let mut filter = BloomFilter::new(500, 4);
    filter.add("kept");
    filter.add("gone");
    assert!(filter.contains("kept"));
    assert!(filter.contains("gone"));

    filter.clear_all();
    assert!(!filter.contains("kept"));
    assert!(!filter.contains("gone"));

    filter.add("kept");
    assert!(filter.contains("kept"));
    assert!(!filter.contains("gone"));
}

#[test]
fn test_contains_monotone_under_adds() {
    let mut filter = BloomFilter::new(2000, 5);
    filter.add("first");
    assert!(filter.contains("first"));
    filter.add("second");
    filter.add("third");
    filter.add("fourth");
    assert!(filter.contains("first"));
    assert!(filter.contains("second"));
    assert!(filter.contains("third"));
    assert!(filter.contains("fourth"));
}

#[test]
fn test_zero_times_always_contains() {
    let mut filter = BloomFilter::new(50, 0);
    assert!(filter.contains("anything"));
    assert!(filter.contains("else"));
    filter.add("anything");
    assert!(filter.contains("anything"));
    assert!(filter.contains("never added"));
    filter.clear_all();
    assert!(filter.contains("anything"));
}

#[test]
fn test_add_idempotent() {
    let probes = ["test1", "test2", "test3", "other", "x", ""];

    let mut once = BloomFilter::new(100, 5);
    once.add("test1");
    let mut twice = BloomFilter::new(100, 5);
    twice.add("test1");
    twice.add("test1");

    for probe in probes {
        assert_eq!(once.contains(probe), twice.contains(probe));
    }
}

#[test]
fn test_owned_and_borrowed_strings_agree() {
    let mut filter = BloomFilter::new(300, 4);
    filter.add(String::from("shared"));
    assert!(filter.contains("shared"));
    assert!(filter.contains(String::from("shared")));
    assert_eq!(
        filter.contains("absent"),
        filter.contains(String::from("absent"))
    );
}

#[test]
fn test_clear_all_chains() {
    let mut filter = BloomFilter::new(200, 3);
    filter.add("early");
    filter.clear_all().add("late");
    assert!(filter.contains("late"));
    assert!(!filter.contains("early"));
}

#[test]
fn test_degenerate_one_bit_capacity() {
    let mut filter = BloomFilter::new(0, 5);
    assert!(!filter.contains("anything"));
    filter.add("anything");
    assert!(filter.contains("anything"));
    assert!(filter.contains("something else entirely"));
}
