use stremio_core::models::common::eq_update;
use stremio_core::runtime::Effects;

#[test]
fn test_effects_defaults() {
    let none_unchanged = Effects::<u32>::none().unchanged();
    let default = Effects::<u32>::default();

    assert!(!default.has_changed);
    assert!(none_unchanged.is_empty());
    assert!(default.is_empty());
    assert_eq!(none_unchanged.has_changed, default.has_changed);
}

#[test]
fn join_keeps_order_and_ors_changes() {
    let a = Effects::one(1u32).unchanged();
    let b = Effects::many(vec![2u32, 3]);
    let joined = a.join(b);
    assert!(joined.has_changed);
    assert_eq!(joined.len(), 3);
    assert_eq!(joined.into_effects(), vec![1, 2, 3]);
    let both_unchanged = Effects::one(1u32).unchanged().join(Effects::<u32>::default());
    assert!(!both_unchanged.has_changed);
}

#[test]
fn eq_update_reports_changes() {
    let mut value = 5u32;
    let same: Effects<()> = eq_update(&mut value, 5);
    assert!(!same.has_changed);
    let changed: Effects<()> = eq_update(&mut value, 6);
    assert!(changed.has_changed);
    assert!(changed.is_empty());
    assert_eq!(value, 6);
}
