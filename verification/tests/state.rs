use program_registry::error::RegistryError;
use program_registry::name::{normalize, pad_name, stored_name};
use program_registry::slot::{Key32, Slot};
use program_registry::state::constants::{
    id, team_id, CONFIG_VALIDATION_PHASE, MARKETPLACE_STORAGE_VALIDATION_PHRASE, MAX_NAME_LENGTH,
    NAME_STORAGE_VALIDATION_PHRASE, PAGE_CAPACITY_NAMES, PAGE_CAPACITY_PROGRAMS,
    PROGRAM_DEPLOYMENT_PAYBACK, STORAGE_VALIDATION_PHASE,
};
use program_registry::state::{name_in_pages, Config, MarketplaceStorage, NameStorage, Storage};
use solana_program::pubkey::Pubkey;

fn owned(data: Vec<u8>) -> Slot {
    Slot {
        key: Key32::new([5u8; 32]),
        owner: id(),
        lamports: 10,
        data,
        is_signer: false,
        executable: false,
    }
}

fn key(n: u8) -> Key32 {
    Key32::new([n; 32])
}

fn page_with(keys: &[u8]) -> (Storage, Slot) {
    let mut record = Storage::default();
    let mut slot = owned(vec![0u8; 8]);
    for k in keys {
        slot.data.resize(slot.data.len() + 32, 0);
        record.add_program(key(*k), &mut slot).unwrap();
    }
    record.encode(&mut slot).unwrap();
    (record, slot)
}

#[test]
fn constants_have_their_values() {
    assert_eq!(CONFIG_VALIDATION_PHASE, 373_836_823);
    assert_eq!(STORAGE_VALIDATION_PHASE, 332_049_381);
    assert_eq!(NAME_STORAGE_VALIDATION_PHRASE, 938_283_942);
    assert_eq!(MARKETPLACE_STORAGE_VALIDATION_PHRASE, 728_721_427);
    assert_eq!(MAX_NAME_LENGTH, 12);
    assert_eq!(PROGRAM_DEPLOYMENT_PAYBACK, 1_000_000_000);
    assert_eq!(PAGE_CAPACITY_PROGRAMS, 625);
    assert_eq!(PAGE_CAPACITY_NAMES, 625);
    let registry = "38pfsot7kCZkrttx1THEDXEz4JJXmCCcaDoDieRtVuy5".parse::<Pubkey>().unwrap();
    assert_eq!(id().bytes, registry.to_bytes());
    let team = "Team111111111111111111111111111111111111111".parse::<Pubkey>().unwrap();
    assert_eq!(team_id().bytes, team.to_bytes());
}

#[test]
fn spaces_are_header_plus_entries() {
    assert_eq!(Config::default().get_space(), 8);
    assert_eq!(Storage::get_init_space(), 8);
    assert_eq!(NameStorage::get_init_space(), 8);
    assert_eq!(MarketplaceStorage::get_init_space(), 8);
    assert_eq!(Storage::default().get_space(), 8);
    let page = Storage { validation_phase: STORAGE_VALIDATION_PHASE, num_programs: 625 };
    assert_eq!(page.get_space(), 20_008);
    let names = NameStorage { validation_phrase: NAME_STORAGE_VALIDATION_PHRASE, num_names: 3 };
    assert_eq!(names.get_space(), 44);
    let market = MarketplaceStorage {
        validation_phase: MARKETPLACE_STORAGE_VALIDATION_PHRASE,
        num_programs: 2,
    };
    assert_eq!(market.get_space(), 72);
}

#[test]
fn records_read_back_as_written() {
    for count in [0u32, 1, 624, 625, u32::MAX] {
        let config = Config { validation_phase: CONFIG_VALIDATION_PHASE, validator_numeration: count };
        let mut slot = owned(vec![0xaa; 8]);
        config.encode(&mut slot).unwrap();
        assert_eq!(Config::decode(&slot), Ok(config));
    }
    for count in [0u32, 1, 7] {
        let page = Storage { validation_phase: STORAGE_VALIDATION_PHASE, num_programs: count };
        let mut slot = owned(vec![0xaa; page.get_space()]);
        page.encode(&mut slot).unwrap();
        assert_eq!(Storage::decode(&slot), Ok(page));
        assert!(slot.data[8..].iter().all(|b| *b == 0xaa));

        let names = NameStorage { validation_phrase: NAME_STORAGE_VALIDATION_PHRASE, num_names: count };
        let mut slot = owned(vec![0xaa; names.get_space()]);
        names.encode(&mut slot).unwrap();
        assert_eq!(NameStorage::decode(&slot), Ok(names));

        let market = MarketplaceStorage {
            validation_phase: MARKETPLACE_STORAGE_VALIDATION_PHRASE,
            num_programs: count,
        };
        let mut slot = owned(vec![0xaa; market.get_space()]);
        market.encode(&mut slot).unwrap();
        assert_eq!(MarketplaceStorage::decode(&slot), Ok(market));
    }
    let mut slot = owned(vec![0; 8]);
    Storage::default().encode(&mut slot).unwrap();
    assert_eq!(Storage::decode(&slot), Ok(Storage::default()));
}

#[test]
fn decode_names_each_failure() {
    let mut slot = owned(vec![0; 8]);
    Config::default().encode(&mut slot).unwrap();
    assert_eq!(Storage::decode(&slot), Err(RegistryError::SchemaTagMismatch));
    assert_eq!(NameStorage::decode(&slot), Err(RegistryError::SchemaTagMismatch));
    assert_eq!(MarketplaceStorage::decode(&slot), Err(RegistryError::SchemaTagMismatch));
    let mut stranger = slot.clone();
    stranger.owner = key(1);
    assert_eq!(Config::decode(&stranger), Err(RegistryError::OwnershipMismatch));
    let short = owned(vec![0x17, 0x4c, 0x48, 0x16, 0, 0, 0]);
    assert_eq!(Config::decode(&short), Err(RegistryError::BufferSizeMismatch));
}

#[test]
fn encode_wants_exact_size() {
    let before = vec![3u8; 9];
    let mut slot = owned(before.clone());
    assert_eq!(Config::default().encode(&mut slot), Err(RegistryError::BufferSizeMismatch));
    assert_eq!(slot.data, before);
    let page = Storage { validation_phase: STORAGE_VALIDATION_PHASE, num_programs: 2 };
    let mut slot = owned(vec![0; 71]);
    assert_eq!(page.encode(&mut slot), Err(RegistryError::BufferSizeMismatch));
    let mut slot = owned(vec![0; 72]);
    assert_eq!(page.encode(&mut slot), Ok(()));
}

#[test]
fn add_program_appends_in_order() {
    let (record, slot) = page_with(&[1, 2, 3]);
    assert_eq!(record.num_programs, 3);
    assert_eq!(slot.data.len(), 8 + 3 * 32);
    assert_eq!(&slot.data[8..40], &[1u8; 32]);
    assert_eq!(&slot.data[40..72], &[2u8; 32]);
    assert_eq!(&slot.data[72..104], &[3u8; 32]);
    assert_eq!(Storage::decode(&slot), Ok(record));
}

#[test]
fn add_program_refuses_duplicate_and_wrong_size() {
    let (mut record, mut slot) = page_with(&[1, 2]);
    let before = slot.data.clone();
    assert_eq!(record.add_program(key(3), &mut slot), Err(RegistryError::BufferSizeMismatch));
    slot.data.resize(before.len() + 32, 0);
    let grown = slot.data.clone();
    assert_eq!(record.add_program(key(2), &mut slot), Err(RegistryError::DuplicateEntry));
    assert_eq!(slot.data, grown);
    assert_eq!(record.num_programs, 2);
    slot.data.resize(before.len() + 64, 0);
    assert_eq!(record.add_program(key(3), &mut slot), Err(RegistryError::BufferSizeMismatch));
}

#[test]
fn full_page_is_left_byte_for_byte() {
    let mut record = Storage { validation_phase: STORAGE_VALIDATION_PHASE, num_programs: 625 };
    let mut slot = owned(vec![0x5a; 8 + 626 * 32]);
    let before = slot.data.clone();
    assert_eq!(record.add_program(key(9), &mut slot), Err(RegistryError::PageCapacityExceeded));
    assert_eq!(slot.data, before);
    assert_eq!(record.num_programs, 625);

    let mut market = MarketplaceStorage {
        validation_phase: MARKETPLACE_STORAGE_VALIDATION_PHRASE,
        num_programs: 625,
    };
    assert_eq!(market.add_program(key(9), &mut slot), Err(RegistryError::PageCapacityExceeded));
    assert_eq!(slot.data, before);

    let mut names = NameStorage { validation_phrase: NAME_STORAGE_VALIDATION_PHRASE, num_names: 625 };
    let mut slot = owned(vec![0x5a; 8 + 626 * 12]);
    let before = slot.data.clone();
    assert_eq!(
        names.add_name("fresh", &mut slot, &Vec::new()),
        Err(RegistryError::PageCapacityExceeded)
    );
    assert_eq!(names.add_name("", &mut slot, &Vec::new()), Err(RegistryError::PageCapacityExceeded));
    assert_eq!(slot.data, before);
    assert_eq!(names.num_names, 625);
}

#[test]
fn page_fills_up_to_its_capacity() {
    let mut record = Storage::default();
    let mut slot = owned(vec![0u8; 8]);
    for n in 0..625u32 {
        let mut bytes = [0u8; 32];
        bytes[..4].copy_from_slice(&n.to_be_bytes());
        slot.data.resize(slot.data.len() + 32, 0);
        assert_eq!(record.add_program(Key32::new(bytes), &mut slot), Ok(()));
    }
    assert_eq!(record.num_programs, 625);
    slot.data.resize(slot.data.len() + 32, 0);
    assert_eq!(
        record.add_program(key(0xee), &mut slot),
        Err(RegistryError::PageCapacityExceeded)
    );
}

#[test]
fn find_program_scans_down_from_the_hint() {
    let (_, mut slot) = page_with(&[1, 2, 3]);
    assert_eq!(Storage::find_program(key(1), &slot, None), Ok(Some(0)));
    assert_eq!(Storage::find_program(key(3), &slot, None), Ok(Some(2)));
    assert_eq!(Storage::find_program(key(4), &slot, None), Ok(None));
    assert_eq!(Storage::find_program(key(3), &slot, Some(1)), Ok(None));
    assert_eq!(Storage::find_program(key(2), &slot, Some(1)), Ok(Some(1)));
    assert_eq!(Storage::find_program(key(1), &slot, Some(0)), Ok(Some(0)));
    assert_eq!(Storage::find_program(key(1), &slot, Some(3)), Err(RegistryError::IndexOutOfRange));
    // the same key twice: the greater position wins
    slot.data[8..40].copy_from_slice(&[3u8; 32]);
    assert_eq!(Storage::find_program(key(3), &slot, None), Ok(Some(2)));
    assert_eq!(Storage::find_program(key(3), &slot, Some(1)), Ok(Some(0)));
    // a page of another kind, a buffer shorter than its count, an empty page
    assert_eq!(
        MarketplaceStorage::find_program(key(1), &slot, None),
        Err(RegistryError::SchemaTagMismatch)
    );
    slot.data.truncate(100);
    assert_eq!(Storage::find_program(key(1), &slot, None), Err(RegistryError::BufferSizeMismatch));
    let (_, empty) = page_with(&[]);
    assert_eq!(Storage::find_program(key(1), &empty, None), Ok(None));
    assert_eq!(Storage::find_program(key(1), &empty, Some(4)), Ok(None));
}

#[test]
fn remove_program_keeps_the_order_of_the_rest() {
    let (mut record, mut slot) = page_with(&[1, 2, 3, 4]);
    assert_eq!(record.remove_program(key(9), &mut slot), Err(RegistryError::NotFound));
    assert_eq!(slot.data.len(), 8 + 4 * 32);
    assert_eq!(record.remove_program(key(2), &mut slot), Ok(1));
    assert_eq!(record.num_programs, 3);
    assert_eq!(slot.data.len(), 8 + 3 * 32);
    assert_eq!(&slot.data[8..40], &[1u8; 32]);
    assert_eq!(&slot.data[40..72], &[3u8; 32]);
    assert_eq!(&slot.data[72..104], &[4u8; 32]);
    record.encode(&mut slot).unwrap();
    assert_eq!(Storage::decode(&slot), Ok(record));
    assert_eq!(record.remove_program(key(4), &mut slot), Ok(2));
    assert_eq!(record.remove_program(key(1), &mut slot), Ok(0));
    assert_eq!(record.remove_program(key(3), &mut slot), Ok(0));
    assert_eq!(slot.data.len(), 8);
    assert_eq!(record.remove_program(key(3), &mut slot), Err(RegistryError::NotFound));
    slot.data.push(0);
    assert_eq!(record.remove_program(key(3), &mut slot), Err(RegistryError::BufferSizeMismatch));
    let mut overfull = Storage { validation_phase: STORAGE_VALIDATION_PHASE, num_programs: 626 };
    assert_eq!(
        overfull.remove_program(key(3), &mut slot),
        Err(RegistryError::PageCapacityExceeded)
    );
}

#[test]
fn normalize_keeps_letters_and_digits_lowered() {
    assert_eq!(normalize("Abc-1"), b"abc1".to_vec());
    assert_eq!(normalize("abc1"), b"abc1".to_vec());
    assert_eq!(normalize("  Hello, World! 42 "), b"helloworld42".to_vec());
    assert_eq!(normalize("ÄÖÜ-ß_é"), Vec::<u8>::new());
    assert_eq!(normalize(""), Vec::<u8>::new());
    assert_eq!(normalize("AZaz09@[`{/:"), b"azaz09".to_vec());
    assert_eq!(pad_name(&b"abc1".to_vec()), b"abc1________".to_vec());
    assert_eq!(pad_name(&b"abcdefghijkl".to_vec()), b"abcdefghijkl".to_vec());
    assert_eq!(pad_name(&Vec::new()), b"____________".to_vec());
}

#[test]
fn stored_name_checks_the_normalized_length() {
    assert_eq!(stored_name("Abc-1"), Ok(b"abc1________".to_vec()));
    assert_eq!(stored_name("a"), Ok(b"a___________".to_vec()));
    assert_eq!(stored_name("twelve-chars-"), Ok(b"twelvechars_".to_vec()));
    assert_eq!(stored_name("ABCDEFGHIJKL"), Ok(b"abcdefghijkl".to_vec()));
    assert_eq!(stored_name("ABCDEFGHIJKLM"), Err(RegistryError::InvalidNameLength));
    assert_eq!(stored_name(""), Err(RegistryError::InvalidNameLength));
    assert_eq!(stored_name("-_-"), Err(RegistryError::InvalidNameLength));
}

#[test]
fn add_name_and_find_name_agree() {
    let mut record = NameStorage::default();
    let mut slot = owned(vec![0u8; 8]);
    for name in ["Abc-1", "second", "THIRD"] {
        slot.data.resize(slot.data.len() + 12, 0);
        assert_eq!(record.add_name(name, &mut slot, &Vec::new()), Ok(()));
    }
    record.encode(&mut slot).unwrap();
    assert_eq!(&slot.data[8..20], b"abc1________");
    assert_eq!(&slot.data[20..32], b"second______");
    assert_eq!(&slot.data[32..44], b"third_______");
    assert_eq!(NameStorage::find_name("abc1________", &slot, None), Ok(Some(0)));
    assert_eq!(NameStorage::find_name("third_______", &slot, None), Ok(Some(2)));
    assert_eq!(NameStorage::find_name("third_______", &slot, Some(1)), Ok(None));
    assert_eq!(NameStorage::find_name("abc1", &slot, None), Ok(None));
    assert_eq!(NameStorage::find_name("fourth______", &slot, None), Ok(None));
    assert_eq!(
        NameStorage::find_name("abc1________", &slot, Some(3)),
        Err(RegistryError::IndexOutOfRange)
    );
    slot.data.resize(slot.data.len() + 12, 0);
    let before = slot.data.clone();
    let none = Vec::new();
    assert_eq!(record.add_name("abc1", &mut slot, &none), Err(RegistryError::DuplicateName));
    assert_eq!(record.add_name("A-B-C-1", &mut slot, &none), Err(RegistryError::DuplicateName));
    assert_eq!(record.add_name("", &mut slot, &none), Err(RegistryError::InvalidNameLength));
    assert_eq!(slot.data, before);
    assert_eq!(record.num_names, 3);
    assert_eq!(record.add_name("fourth", &mut slot, &none), Ok(()));
    assert_eq!(record.add_name("fifth", &mut slot, &none), Err(RegistryError::BufferSizeMismatch));
    assert_eq!(record.num_names, 4);
}

#[test]
fn names_are_unique_across_pages() {
    let mut first = NameStorage::default();
    let mut first_slot = owned(vec![0u8; 20]);
    first.add_name("Alpha", &mut first_slot, &Vec::new()).unwrap();
    first.encode(&mut first_slot).unwrap();
    let empty = owned(vec![0xa6, 0x13, 0xed, 0x37, 0, 0, 0, 0]);
    assert_eq!(NameStorage::decode(&empty), Ok(NameStorage::default()));
    let pages = vec![empty.clone(), first_slot.clone()];
    assert_eq!(name_in_pages(b"alpha_______", &pages), Ok(true));
    assert_eq!(name_in_pages(b"beta________", &pages), Ok(false));
    assert_eq!(name_in_pages(b"alpha", &pages), Ok(false));
    assert_eq!(name_in_pages(b"alpha_______", &Vec::new()), Ok(false));

    let mut second = NameStorage::default();
    let mut second_slot = owned(vec![0u8; 20]);
    let before = second_slot.data.clone();
    assert_eq!(
        second.add_name("ALPHA", &mut second_slot, &pages),
        Err(RegistryError::DuplicateName)
    );
    assert_eq!(second_slot.data, before);
    assert_eq!(second.add_name("beta", &mut second_slot, &pages), Ok(()));
    assert_eq!(&second_slot.data[8..20], b"beta________");

    // an earlier page that cannot be read stops the scan
    let mut broken = first_slot.clone();
    broken.owner = key(1);
    let mut third = NameStorage::default();
    let mut third_slot = owned(vec![0u8; 20]);
    assert_eq!(
        third.add_name("gamma", &mut third_slot, &vec![broken, first_slot]),
        Err(RegistryError::OwnershipMismatch)
    );
}

#[test]
fn second_spelling_on_a_page_without_room_is_duplicate() {
    let mut record = NameStorage::default();
    let mut slot = owned(vec![0u8; 20]);
    assert_eq!(record.add_name("Abc-1", &mut slot, &Vec::new()), Ok(()));
    record.encode(&mut slot).unwrap();
    assert_eq!(slot.data.len(), 20);
    assert_eq!(NameStorage::decode(&slot).unwrap().num_names, 1);
    let before = slot.data.clone();
    assert_eq!(
        record.add_name("abc1", &mut slot, &Vec::new()),
        Err(RegistryError::DuplicateName)
    );
    assert_eq!(slot.data, before);
    assert_eq!(record.num_names, 1);
    assert_eq!(&slot.data[8..20], b"abc1________");
    // a new name on the same page has no room
    assert_eq!(
        record.add_name("other", &mut slot, &Vec::new()),
        Err(RegistryError::BufferSizeMismatch)
    );
    // a buffer too short for the names that the page counts cannot be searched
    slot.data.truncate(19);
    assert_eq!(
        record.add_name("abc1", &mut slot, &Vec::new()),
        Err(RegistryError::BufferSizeMismatch)
    );
}

#[test]
fn same_key_on_a_page_without_room_is_duplicate() {
    let (mut record, mut slot) = page_with(&[1, 2]);
    let before = slot.data.clone();
    assert_eq!(record.add_program(key(2), &mut slot), Err(RegistryError::DuplicateEntry));
    assert_eq!(record.add_program(key(1), &mut slot), Err(RegistryError::DuplicateEntry));
    assert_eq!(slot.data, before);
    assert_eq!(record.num_programs, 2);
    let mut market = MarketplaceStorage {
        validation_phase: MARKETPLACE_STORAGE_VALIDATION_PHRASE,
        num_programs: 2,
    };
    assert_eq!(market.add_program(key(2), &mut slot), Err(RegistryError::DuplicateEntry));
    assert_eq!(market.add_program(key(3), &mut slot), Err(RegistryError::BufferSizeMismatch));
}

#[test]
fn name_of_an_earlier_page_is_duplicate_whatever_the_room() {
    let mut first = NameStorage::default();
    let mut first_slot = owned(vec![0u8; 20]);
    first.add_name("Alpha", &mut first_slot, &Vec::new()).unwrap();
    first.encode(&mut first_slot).unwrap();
    let earlier = vec![first_slot.clone()];
    for room in [8usize, 20, 32] {
        let mut current = NameStorage::default();
        let mut slot = owned(vec![0u8; room]);
        let before = slot.data.clone();
        assert_eq!(
            current.add_name("al-PHA", &mut slot, &earlier),
            Err(RegistryError::DuplicateName)
        );
        assert_eq!(slot.data, before);
        assert_eq!(current.num_names, 0);
    }
    assert_eq!(earlier[0].data, first_slot.data);
}
