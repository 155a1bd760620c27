use solana_registry::ident::{AccountId, AgentError};
use solana_registry::store::Store;

#[test]
fn store_create_load_save_semantics() {
    let mut s: Store<u64> = Store::new();
    let a = AccountId::new([1; 32]);
    assert!(s.load(&a).is_none());
    assert!(!s.contains(&a));
    // Saving requires the record to already exist.
    assert_eq!(s.save(a, 9), Err(AgentError::NotFound));
    // First write initializes.
    assert_eq!(s.create(a, 5), Ok(()));
    assert_eq!(s.load(&a).copied(), Some(5));
    // A second creation at an occupied address is rejected whole.
    assert_eq!(s.create(a, 6), Err(AgentError::AlreadyExists));
    assert_eq!(s.load(&a).copied(), Some(5));
    // Saving overwrites in place.
    assert_eq!(s.save(a, 7), Ok(()));
    assert_eq!(s.load(&a).copied(), Some(7));
    // Operations touch only the record they name.
    let b = AccountId::new([2; 32]);
    assert_eq!(s.create(b, 1), Ok(()));
    assert_eq!(s.take(&a), 7);
    assert!(s.load(&a).is_none());
    assert_eq!(s.load(&b).copied(), Some(1));
}
