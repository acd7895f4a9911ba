use program_registry::error::RegistryError;
use program_registry::ledger::{
    config_seed, marketplace_storage_seed, name_storage_seed, page_seeds, single_seeds,
    storage_seed,
};
use program_registry::slot::{Key32, Slot};
use program_registry::state::constants::id;
use program_registry::utils::{
    check_derived, AccountInfoHelpers, OptionExt, PubkeyHelpers, ResultExt,
};
use solana_program::pubkey::Pubkey;

fn slot(key: Key32, owner: Key32, is_signer: bool) -> Slot {
    Slot { key, owner, lamports: 0, data: Vec::new(), is_signer, executable: false }
}

#[test]
fn keys_match_only_themselves() {
    let a = Key32::new([1u8; 32]);
    let mut other = [1u8; 32];
    other[31] = 2;
    assert_eq!(a.assert_match(&Key32::new([1u8; 32])), Ok(()));
    assert_eq!(a.assert_match(&Key32::new(other)), Err(RegistryError::AddressMismatch));
    assert!(a.same(&a));
    assert!(!a.same(&Key32::new(other)));
}

#[test]
fn slot_checks_name_their_failure() {
    let s = slot(Key32::new([1u8; 32]), Key32::new([2u8; 32]), false);
    assert_eq!(s.assert_key_match(&Key32::new([1u8; 32])), Ok(()));
    assert_eq!(
        s.assert_key_match(&Key32::new([2u8; 32])),
        Err(RegistryError::AddressMismatch)
    );
    assert_eq!(s.assert_owner(&Key32::new([2u8; 32])), Ok(()));
    assert_eq!(s.assert_owner(&Key32::new([1u8; 32])), Err(RegistryError::OwnershipMismatch));
    assert_eq!(s.assert_signer(), Err(RegistryError::MissingRequiredSignature));
    let signed = slot(Key32::new([1u8; 32]), Key32::new([2u8; 32]), true);
    assert_eq!(signed.assert_signer(), Ok(()));
}

#[test]
fn seeds_are_namespace_and_big_endian_page() {
    assert_eq!(config_seed(), b"config".to_vec());
    assert_eq!(storage_seed(), b"storage".to_vec());
    assert_eq!(name_storage_seed(), b"name_storage".to_vec());
    assert_eq!(marketplace_storage_seed(), b"marketplace_storage".to_vec());
    assert_eq!(single_seeds(config_seed()), vec![b"config".to_vec()]);
    assert_eq!(
        page_seeds(storage_seed(), 0x0102_0304),
        vec![b"storage".to_vec(), vec![1, 2, 3, 4]]
    );
    assert_eq!(page_seeds(name_storage_seed(), 1), vec![b"name_storage".to_vec(), vec![0, 0, 0, 1]]);
}

#[test]
fn assert_seed_returns_the_derived_address_and_bump() {
    let program = Pubkey::new_from_array(id().bytes);
    let (address, bump) = Pubkey::find_program_address(&[b"storage", &[0, 0, 0, 2]], &program);
    let at = slot(Key32::new(address.to_bytes()), id(), false);
    let seeds = page_seeds(storage_seed(), 2);
    let found = at.assert_seed(&id(), &seeds).unwrap();
    assert_eq!(found.0.bytes, address.to_bytes());
    assert_eq!(found.1, bump);
    assert_ne!(found.0.bytes, id().bytes);

    let other = page_seeds(storage_seed(), 3);
    assert_eq!(at.assert_seed(&id(), &other).err(), Some(RegistryError::AddressMismatch));
    let elsewhere = slot(Key32::new([3u8; 32]), id(), false);
    assert_eq!(elsewhere.assert_seed(&id(), &seeds).err(), Some(RegistryError::AddressMismatch));
    // another owning program derives another address
    assert_eq!(
        at.assert_seed(&Key32::new([9u8; 32]), &seeds).err(),
        Some(RegistryError::AddressMismatch)
    );
    // a seed longer than the ledger takes derives nothing
    let long = vec![vec![0u8; 33]];
    assert_eq!(at.assert_seed(&id(), &long).err(), Some(RegistryError::AddressMismatch));
}

#[test]
fn check_derived_compares_with_the_address() {
    let key = Key32::new([1u8; 32]);
    let ok = check_derived(Some((Key32::new([1u8; 32]), 250)), &key).unwrap();
    assert_eq!((ok.0.bytes, ok.1), ([1u8; 32], 250));
    assert_eq!(
        check_derived(Some((Key32::new([2u8; 32]), 250)), &key).err(),
        Some(RegistryError::AddressMismatch)
    );
    assert_eq!(check_derived(None, &key).err(), Some(RegistryError::AddressMismatch));
}

#[test]
fn error_log_passes_results_on() {
    let ok: Result<u8, RegistryError> = Ok(3);
    assert_eq!(ok.error_log("fine"), Ok(3));
    let err: Result<u8, RegistryError> = Err(RegistryError::NotFound);
    assert_eq!(err.error_log("lost"), Err(RegistryError::NotFound));
    assert_eq!(OptionExt::error_log(Some(5u8), "there"), Ok(5));
    assert_eq!(
        OptionExt::error_log(None::<u8>, "absent"),
        Err(RegistryError::MissingValue)
    );
}
