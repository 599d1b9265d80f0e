use o11a_core::ids::{allocate_adversarial_property_id, allocate_functional_property_id};
use o11a_core::ids::{allocate_spec_id, iso8601, now_iso8601, reseed_adversarial_property_id};
use o11a_core::ids::{reseed_functional_property_id, reseed_spec_id, IdCounters};

#[test]
fn spec_allocation_is_monotonic() {
    let mut ids = IdCounters::new();
    reseed_spec_id(&mut ids, 0);
    let a = allocate_spec_id(&mut ids);
    let b = allocate_spec_id(&mut ids);
    let c = allocate_spec_id(&mut ids);
    assert_eq!(a, 1);
    assert_eq!(b, 2);
    assert_eq!(c, 3);
}

#[test]
fn spec_reseed_advances_past_max() {
    let mut ids = IdCounters::new();
    reseed_spec_id(&mut ids, 42);
    assert_eq!(allocate_spec_id(&mut ids), 43);
    assert_eq!(allocate_spec_id(&mut ids), 44);
}

#[test]
fn spec_reseed_with_lower_value_still_stores() {
    let mut ids = IdCounters::new();
    reseed_spec_id(&mut ids, 100);
    assert_eq!(allocate_spec_id(&mut ids), 101);
    reseed_spec_id(&mut ids, 5);
    assert_eq!(allocate_spec_id(&mut ids), 6);
}

#[test]
fn functional_property_allocation_is_monotonic() {
    let mut ids = IdCounters::new();
    reseed_functional_property_id(&mut ids, 0);
    assert_eq!(allocate_functional_property_id(&mut ids), 1);
    assert_eq!(allocate_functional_property_id(&mut ids), 2);
}

#[test]
fn functional_property_reseed_advances_past_max() {
    let mut ids = IdCounters::new();
    reseed_functional_property_id(&mut ids, 20);
    assert_eq!(allocate_functional_property_id(&mut ids), 21);
}

#[test]
fn functional_property_reseed_with_lower_value_still_stores() {
    let mut ids = IdCounters::new();
    reseed_functional_property_id(&mut ids, 75);
    reseed_functional_property_id(&mut ids, 3);
    assert_eq!(allocate_functional_property_id(&mut ids), 4);
}

#[test]
fn adversarial_property_allocation_is_monotonic() {
    let mut ids = IdCounters::new();
    reseed_adversarial_property_id(&mut ids, 0);
    assert_eq!(allocate_adversarial_property_id(&mut ids), 1);
    assert_eq!(allocate_adversarial_property_id(&mut ids), 2);
}

#[test]
fn adversarial_property_reseed_advances_past_max() {
    let mut ids = IdCounters::new();
    reseed_adversarial_property_id(&mut ids, 20);
    assert_eq!(allocate_adversarial_property_id(&mut ids), 21);
}

#[test]
fn adversarial_property_reseed_with_lower_value_still_stores() {
    let mut ids = IdCounters::new();
    reseed_adversarial_property_id(&mut ids, 75);
    reseed_adversarial_property_id(&mut ids, 3);
    assert_eq!(allocate_adversarial_property_id(&mut ids), 4);
}

#[test]
fn numbers_go_round_after_the_largest() {
    let mut ids = IdCounters::new();
    reseed_spec_id(&mut ids, i32::MAX - 1);
    assert_eq!(allocate_spec_id(&mut ids), i32::MAX);
    assert_eq!(allocate_spec_id(&mut ids), i32::MIN);
    assert_eq!(allocate_functional_property_id(&mut ids), 1);
    assert_eq!(allocate_adversarial_property_id(&mut ids), 1);
}

#[test]
fn time_stamps_of_known_seconds() {
    assert_eq!(iso8601(0), "1970-01-01T00:00:00Z");
    assert_eq!(iso8601(951_782_400), "2000-02-29T00:00:00Z");
    assert_eq!(iso8601(951_868_799), "2000-02-29T23:59:59Z");
    assert_eq!(iso8601(951_868_800), "2000-03-01T00:00:00Z");
    assert_eq!(iso8601(1_709_164_800), "2024-02-29T00:00:00Z");
    assert_eq!(iso8601(1_767_225_599), "2025-12-31T23:59:59Z");
    assert_eq!(iso8601(4_107_542_400), "2100-03-01T00:00:00Z");
    assert_eq!(iso8601(-1), "1969-12-31T23:59:59Z");
    assert_eq!(iso8601(-62_135_596_800), "0001-01-01T00:00:00Z");
    assert_eq!(iso8601(253_402_300_800), "10000-01-01T00:00:00Z");
}

#[test]
fn time_stamps_of_the_extremes() {
    assert_eq!(iso8601(i64::MAX), "292277026596-12-04T15:30:07Z");
    assert_eq!(iso8601(i64::MIN), "-292277022657-01-27T08:29:52Z");
}

#[test]
fn this_moment_has_a_time_stamp() {
    let a = now_iso8601();
    assert_eq!(a.len(), 20);
    assert!(a.ends_with('Z'));
    assert!(a.as_str() > "2020-01-01T00:00:00Z");
    let b = now_iso8601();
    assert!(a <= b);
}
