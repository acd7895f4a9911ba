use program_registry::add_program::{PageGrowth, RentQuote};
use program_registry::allocator::CapacityAction;
use program_registry::error::RegistryError;
use program_registry::slot::{Key32, Slot};
use program_registry::state::constants::{id, team_id, PROGRAM_DEPLOYMENT_PAYBACK};
use program_registry::state::{Config, MarketplaceStorage, NameStorage, Storage};
use program_registry::{process_instruction, InstructionRent, Outcome};
use solana_program::pubkey::Pubkey;

fn derive(namespace: &[u8], page: Option<u32>) -> Key32 {
    let program = Pubkey::new_from_array(id().bytes);
    let key = match page {
        Some(index) => {
            Pubkey::find_program_address(&[namespace, &index.to_be_bytes()], &program).0
        }
        None => Pubkey::find_program_address(&[namespace], &program).0,
    };
    Key32::new(key.to_bytes())
}

fn plain(key: Key32, lamports: u64) -> Slot {
    Slot {
        key,
        owner: Key32::new([0u8; 32]),
        lamports,
        data: Vec::new(),
        is_signer: false,
        executable: false,
    }
}

fn unit(tag: u8) -> Slot {
    let loader = "BPFLoaderUpgradeab1e11111111111111111111111".parse::<Pubkey>().unwrap();
    Slot {
        key: Key32::new([tag; 32]),
        owner: Key32::new(loader.to_bytes()),
        lamports: 1,
        data: Vec::new(),
        is_signer: false,
        executable: true,
    }
}

fn rent() -> InstructionRent {
    InstructionRent {
        config: 900,
        names: RentQuote { init: 1_000, grown: 1_100 },
        storage: RentQuote { init: 1_000, grown: 1_300 },
    }
}

fn registry() -> Vec<Slot> {
    let mut accounts = vec![
        plain(Key32::new([9u8; 32]), 10_000_000_000),
        plain(derive(b"config", None), 0),
    ];
    let done = process_instruction(&id(), &mut accounts, &[0], rent());
    assert_eq!(
        done,
        Ok(Outcome::Initialized(CapacityAction::Created { space: 8, lamports: 900 }))
    );
    accounts
}

#[test]
fn init_config_instruction_creates_the_counter() {
    let accounts = registry();
    assert_eq!(accounts[0].lamports, 10_000_000_000 - 900);
    assert_eq!(Config::decode(&accounts[1]), Ok(Config::default()));
    let mut again = accounts.clone();
    assert_eq!(
        process_instruction(&id(), &mut again, &[0], rent()),
        Err(RegistryError::AlreadyInitialized)
    );
    let mut few = vec![accounts[0].clone()];
    assert_eq!(
        process_instruction(&id(), &mut few, &[0], rent()),
        Err(RegistryError::NotEnoughAccountKeys)
    );
}

#[test]
fn add_validator_program_instruction_registers() {
    let base = registry();
    let mut accounts = vec![
        base[0].clone(),
        base[1].clone(),
        unit(3),
        plain(team_id(), 0),
        plain(derive(b"storage", Some(0)), 0),
        plain(derive(b"name_storage", Some(0)), 0),
    ];
    let input = [1u8, 5, 0, 0, 0, b'A', b'b', b'c', b'-', b'1'];
    let done = process_instruction(&id(), &mut accounts, &input, rent()).unwrap();
    match done {
        Outcome::Validator(growth) => {
            assert_eq!(growth.names, PageGrowth { created: true, transfer: 100, new_size: 20 });
            assert_eq!(growth.storage, PageGrowth { created: true, transfer: 300, new_size: 40 });
        }
        other => panic!("unexpected {:?}", other),
    }
    assert_eq!(Config::decode(&accounts[1]).unwrap().validator_numeration, 1);
    assert_eq!(accounts[3].lamports, PROGRAM_DEPLOYMENT_PAYBACK);
    assert_eq!(Storage::decode(&accounts[4]).unwrap().num_programs, 1);
    assert_eq!(&accounts[4].data[8..], &[3u8; 32]);
    assert_eq!(NameStorage::decode(&accounts[5]).unwrap().num_names, 1);
    assert_eq!(&accounts[5].data[8..], b"abc1________");
    assert_eq!(accounts[2].lamports, 1);

    // the same name again, for another program: refused, nothing changes
    accounts[2] = unit(4);
    let before = accounts.clone();
    let again = process_instruction(&id(), &mut accounts, &[1, 4, 0, 0, 0, b'a', b'b', b'c', b'1'], rent());
    assert_eq!(again, Err(RegistryError::DuplicateName));
    for (now, then) in accounts.iter().zip(before.iter()) {
        assert_eq!(now.data, then.data);
        assert_eq!(now.lamports, then.lamports);
        assert_eq!(now.owner.bytes, then.owner.bytes);
    }
    accounts.truncate(5);
    assert_eq!(
        process_instruction(&id(), &mut accounts, &input, rent()),
        Err(RegistryError::NotEnoughAccountKeys)
    );
}

#[test]
fn add_marketplace_program_instruction_registers() {
    let base = registry();
    let mut accounts = vec![
        base[0].clone(),
        base[1].clone(),
        unit(3),
        plain(team_id(), 0),
        plain(derive(b"marketplace_storage", Some(0)), 0),
    ];
    let done = process_instruction(&id(), &mut accounts, &[3], rent());
    assert_eq!(
        done,
        Ok(Outcome::Marketplace(PageGrowth { created: true, transfer: 300, new_size: 40 }))
    );
    assert_eq!(MarketplaceStorage::decode(&accounts[4]).unwrap().num_programs, 1);
    assert_eq!(Config::decode(&accounts[1]).unwrap().validator_numeration, 1);
    accounts.truncate(4);
    assert_eq!(
        process_instruction(&id(), &mut accounts, &[3], rent()),
        Err(RegistryError::NotEnoughAccountKeys)
    );
}

#[test]
fn reset_instruction_goes_back_to_the_page_start() {
    let base = registry();
    let mut accounts = vec![
        base[0].clone(),
        base[1].clone(),
        unit(3),
        plain(team_id(), 0),
        plain(derive(b"storage", Some(0)), 0),
        plain(derive(b"name_storage", Some(0)), 0),
    ];
    process_instruction(&id(), &mut accounts, &[1, 1, 0, 0, 0, b'x'], rent()).unwrap();
    let mut slots = vec![
        accounts[0].clone(),
        accounts[1].clone(),
        accounts[4].clone(),
        accounts[5].clone(),
        plain(derive(b"marketplace_storage", Some(0)), 0),
    ];
    assert_eq!(process_instruction(&id(), &mut slots, &[4], rent()), Ok(Outcome::Reset(0)));
    assert_eq!(Config::decode(&slots[1]), Ok(Config::default()));
    assert_eq!(Storage::decode(&slots[2]), Ok(Storage::default()));
    assert_eq!(NameStorage::decode(&slots[3]), Ok(NameStorage::default()));
    assert!(slots[4].data.is_empty());
    slots.swap(2, 3);
    assert_eq!(
        process_instruction(&id(), &mut slots, &[4], rent()),
        Err(RegistryError::AddressMismatch)
    );
}

#[test]
fn unsupported_instructions_are_refused() {
    let mut accounts = registry();
    let before = accounts.clone();
    for input in [&[2u8, 1][..], &[5][..], &[9][..], &[][..], &[0, 0][..], &[1, 9, 0, 0, 0][..]] {
        assert_eq!(
            process_instruction(&id(), &mut accounts, input, rent()),
            Err(RegistryError::InvalidInstructionData)
        );
    }
    assert_eq!(accounts[1].data, before[1].data);
    assert_eq!(accounts[0].lamports, before[0].lamports);
}
