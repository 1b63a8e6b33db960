use guillotine::future_id::FutureId;
use guillotine::future_id::FutureIdGenerator;

#[test]
fn fresh_ids_are_dense_and_monotonic() {
    let mut generator = FutureIdGenerator::default();
    assert_eq!(generator.peek(), 0);
    let a = generator.fresh();
    let b = generator.fresh();
    let c = generator.fresh();
    assert_eq!(a.to_u64(), 0);
    assert_eq!(b.to_u64(), 1);
    assert_eq!(c.to_u64(), 2);
    assert_eq!(generator.peek(), 3);
}

#[test]
fn id_round_trips_through_u64() {
    let id = FutureId::from_u64(7);
    assert_eq!(id.to_u64(), 7);
    assert_eq!(FutureId::from_u64(id.to_u64()), id);

    let raw: u64 = u64::MAX;
    assert_eq!(FutureId::from_u64(raw).to_u64(), raw);
}
