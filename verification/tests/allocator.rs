use program_registry::allocator::{ensure_capacity, CapacityAction};
use program_registry::error::RegistryError;
use program_registry::slot::{Key32, Slot};
use program_registry::state::constants::id;

fn slot(owner: Key32, lamports: u64, data: Vec<u8>) -> Slot {
    Slot { key: Key32::new([4u8; 32]), owner, lamports, data, is_signer: false, executable: false }
}

fn system() -> Key32 {
    Key32::new([0u8; 32])
}

#[test]
fn fresh_slot_is_created_with_exact_size_and_collateral() {
    let mut page = slot(system(), 0, Vec::new());
    let mut payer = slot(system(), 5_000, Vec::new());
    let action = ensure_capacity(&mut page, &mut payer, 40, 1_234);
    assert_eq!(action, Ok(CapacityAction::Created { space: 40, lamports: 1_234 }));
    assert_eq!(page.owner.bytes, id().bytes);
    assert_eq!(page.data, vec![0u8; 40]);
    assert_eq!(page.lamports, 1_234);
    assert_eq!(payer.lamports, 5_000 - 1_234);
    assert_eq!(page.key.bytes, [4u8; 32]);
}

#[test]
fn fresh_slot_in_use_is_refused() {
    let mut funded = slot(system(), 1, Vec::new());
    let mut payer = slot(system(), 5_000, Vec::new());
    assert_eq!(
        ensure_capacity(&mut funded, &mut payer, 40, 10),
        Err(RegistryError::AlreadyInitialized)
    );
    let mut filled = slot(system(), 0, vec![1]);
    assert_eq!(
        ensure_capacity(&mut filled, &mut payer, 40, 10),
        Err(RegistryError::AlreadyInitialized)
    );
    assert_eq!(payer.lamports, 5_000);
    assert_eq!(filled.data, vec![1]);
}

#[test]
fn growth_tops_up_exactly_what_is_missing() {
    let mut page = slot(id(), 700, vec![1, 2, 3]);
    let mut payer = slot(system(), 5_000, Vec::new());
    let action = ensure_capacity(&mut page, &mut payer, 6, 1_000);
    assert_eq!(action, Ok(CapacityAction::Grown { transfer: 300, new_size: 6 }));
    assert_eq!(page.data, vec![1, 2, 3, 0, 0, 0]);
    assert_eq!(page.lamports, 1_000);
    assert_eq!(payer.lamports, 4_700);

    // already funded: nothing moves, the slot grows all the same
    let action = ensure_capacity(&mut page, &mut payer, 8, 900);
    assert_eq!(action, Ok(CapacityAction::Grown { transfer: 0, new_size: 8 }));
    assert_eq!(page.data, vec![1, 2, 3, 0, 0, 0, 0, 0]);
    assert_eq!(page.lamports, 1_000);
    assert_eq!(payer.lamports, 4_700);
}

#[test]
fn slot_that_is_large_enough_is_left_alone() {
    let mut page = slot(id(), 1, vec![9; 10]);
    let mut payer = slot(system(), 5_000, Vec::new());
    assert_eq!(ensure_capacity(&mut page, &mut payer, 10, 1_000), Ok(CapacityAction::Unchanged));
    assert_eq!(ensure_capacity(&mut page, &mut payer, 3, 1_000), Ok(CapacityAction::Unchanged));
    assert_eq!(ensure_capacity(&mut page, &mut payer, 0, 1_000), Ok(CapacityAction::Unchanged));
    assert_eq!(page.data, vec![9; 10]);
    assert_eq!(page.lamports, 1);
    assert_eq!(payer.lamports, 5_000);
}

#[test]
fn growing_twice_keeps_the_bytes_and_ends_at_the_second_size() {
    let mut page = slot(id(), 0, vec![7, 8]);
    let mut payer = slot(system(), 5_000, Vec::new());
    ensure_capacity(&mut page, &mut payer, 5, 100).unwrap();
    let after_first = page.data.clone();
    assert_eq!(after_first.len(), 5);
    ensure_capacity(&mut page, &mut payer, 9, 200).unwrap();
    assert_eq!(page.data.len(), 9);
    assert_eq!(&page.data[..5], &after_first[..]);
    assert_eq!(&page.data[..2], &[7, 8]);
    assert_eq!(page.lamports, 200);
    assert_eq!(payer.lamports, 4_800);
}

#[test]
fn foreign_slot_and_poor_payer_are_refused() {
    let mut foreign = slot(Key32::new([1u8; 32]), 0, vec![1]);
    let mut payer = slot(system(), 50, Vec::new());
    assert_eq!(
        ensure_capacity(&mut foreign, &mut payer, 40, 10),
        Err(RegistryError::OwnershipMismatch)
    );
    assert_eq!(foreign.data, vec![1]);

    let mut page = slot(id(), 10, vec![1]);
    assert_eq!(
        ensure_capacity(&mut page, &mut payer, 40, 61),
        Err(RegistryError::InsufficientFunds)
    );
    assert_eq!(page.data, vec![1]);
    assert_eq!(page.lamports, 10);
    assert_eq!(payer.lamports, 50);
    assert_eq!(
        ensure_capacity(&mut page, &mut payer, 40, 60),
        Ok(CapacityAction::Grown { transfer: 50, new_size: 40 })
    );
    assert_eq!(payer.lamports, 0);

    let mut fresh = slot(system(), 0, Vec::new());
    assert_eq!(
        ensure_capacity(&mut fresh, &mut payer, 8, 1),
        Err(RegistryError::InsufficientFunds)
    );
    assert!(fresh.data.is_empty());
}
