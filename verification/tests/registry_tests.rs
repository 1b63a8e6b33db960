use guillotine::future_id::FutureId;
use guillotine::registry::Registry;

#[test]
fn register_is_idempotent_for_one_task() {
    let mut registry = Registry::new();
    let task = FutureId::from_u64(0);

    assert!(registry.add(5, task));
    assert_eq!(registry.owner_of(5), Some(task));

    // Re-registering across later pending polls is accepted and changes
    // nothing.
    assert!(!registry.add(5, task));
    assert!(!registry.add(5, task));
    assert_eq!(registry.owner_of(5), Some(task));
}

#[test]
fn reregistration_never_changes_the_owner() {
    let mut registry = Registry::new();
    let first = FutureId::from_u64(0);
    let second = FutureId::from_u64(1);

    assert!(registry.add(9, first));
    assert!(!registry.add(9, second));
    assert_eq!(registry.owner_of(9), Some(first));
}

#[test]
fn closing_a_descriptor_tears_down_only_its_subscription() {
    let mut registry = Registry::new();
    let first = FutureId::from_u64(0);
    let second = FutureId::from_u64(1);

    assert!(registry.add(3, first));
    assert!(registry.add(4, second));

    assert!(registry.remove_fd(3));
    assert!(!registry.contains_fd(3));
    assert_eq!(registry.owner_of(4), Some(second));

    // Removing an absent descriptor changes nothing.
    assert!(!registry.remove_fd(3));
    assert_eq!(registry.owner_of(4), Some(second));

    // The descriptor number can now be registered afresh, under a new
    // owner.
    assert!(registry.add(3, second));
    assert_eq!(registry.owner_of(3), Some(second));
}

#[test]
fn distinct_descriptors_have_distinct_owners() {
    let mut registry = Registry::new();
    let first = FutureId::from_u64(0);
    let second = FutureId::from_u64(1);

    assert!(registry.add(3, first));
    assert!(registry.add(4, second));
    assert_eq!(registry.owner_of(3), Some(first));
    assert_eq!(registry.owner_of(4), Some(second));
    assert_eq!(registry.owner_of(5), None);
    assert!(registry.contains_fd(3));
    assert!(!registry.contains_fd(5));
}
