use program_registry::codec::{header_bytes, read_header, read_u32_at};
use program_registry::InstructionEnum;

#[test]
fn header_is_two_little_endian_numbers() {
    assert_eq!(header_bytes(1, 2), vec![1, 0, 0, 0, 2, 0, 0, 0]);
    assert_eq!(
        header_bytes(0x0403_0201, 0xfffe_fdfc),
        vec![1, 2, 3, 4, 0xfc, 0xfd, 0xfe, 0xff]
    );
    assert_eq!(
        header_bytes(373_836_823, 0),
        vec![0x17, 0x4c, 0x48, 0x16, 0, 0, 0, 0]
    );
}

#[test]
fn header_reads_back() {
    for (tag, count) in [(0u32, 0u32), (1, 2), (u32::MAX, 77), (938_283_942, u32::MAX)] {
        let mut bytes = header_bytes(tag, count);
        assert_eq!(read_header(&bytes), Some((tag, count)));
        bytes.extend_from_slice(&[9, 9, 9]);
        assert_eq!(read_header(&bytes), Some((tag, count)));
    }
    assert_eq!(read_header(&[1, 2, 3, 4, 5, 6, 7]), None);
    assert_eq!(read_header(&[]), None);
}

#[test]
fn read_u32_at_checks_bounds() {
    let bytes = [0x78, 0x56, 0x34, 0x12, 0xff];
    assert_eq!(read_u32_at(&bytes, 0), Some(0x1234_5678));
    assert_eq!(read_u32_at(&bytes, 1), Some(0xff12_3456));
    assert_eq!(read_u32_at(&bytes, 2), None);
    assert_eq!(read_u32_at(&bytes, usize::MAX), None);
    assert_eq!(read_u32_at(&[], 0), None);
}

#[test]
fn instructions_without_fields_are_one_byte() {
    assert!(matches!(InstructionEnum::try_decode(&[0]), Some(InstructionEnum::InitConfig)));
    assert!(matches!(
        InstructionEnum::try_decode(&[3]),
        Some(InstructionEnum::AddMarketplaceProgram)
    ));
    assert!(matches!(InstructionEnum::try_decode(&[4]), Some(InstructionEnum::Reset)));
    assert!(matches!(InstructionEnum::try_decode(&[5]), Some(InstructionEnum::Blank)));
    assert!(matches!(InstructionEnum::decode(&[4]), InstructionEnum::Reset));
    assert!(InstructionEnum::try_decode(&[0, 0]).is_none());
    assert!(InstructionEnum::try_decode(&[4, 1]).is_none());
    assert!(InstructionEnum::try_decode(&[6]).is_none());
    assert!(InstructionEnum::try_decode(&[255]).is_none());
    assert!(InstructionEnum::try_decode(&[]).is_none());
}

#[test]
fn add_validator_program_carries_a_framed_name() {
    let mut input = vec![1u8];
    input.extend_from_slice(&borsh::BorshSerialize::try_to_vec(&"Grüße".to_string()).unwrap());
    match InstructionEnum::try_decode(&input) {
        Some(InstructionEnum::AddValidatorProgram { name }) => assert_eq!(name, "Grüße"),
        other => panic!("unexpected {:?}", other),
    }
    match InstructionEnum::decode(&[1, 2, 0, 0, 0, b'h', b'i']) {
        InstructionEnum::AddValidatorProgram { name } => assert_eq!(name, "hi"),
        other => panic!("unexpected {:?}", other),
    }
    match InstructionEnum::try_decode(&[1, 0, 0, 0, 0]) {
        Some(InstructionEnum::AddValidatorProgram { name }) => assert_eq!(name, ""),
        other => panic!("unexpected {:?}", other),
    }
    // length that does not match, bytes left over, bytes that are no text
    assert!(InstructionEnum::try_decode(&[1, 3, 0, 0, 0, b'h', b'i']).is_none());
    assert!(InstructionEnum::try_decode(&[1, 1, 0, 0, 0, b'h', b'i']).is_none());
    assert!(InstructionEnum::try_decode(&[1, 2, 0, 0, 0, 0xff, 0xfe]).is_none());
    assert!(InstructionEnum::try_decode(&[1, 2, 0, 0]).is_none());
    assert!(InstructionEnum::try_decode(&[1]).is_none());
}

#[test]
fn remove_programs_carries_one_byte() {
    match InstructionEnum::try_decode(&[2, 7]) {
        Some(InstructionEnum::RemovePrograms { program_count }) => assert_eq!(program_count, 7),
        other => panic!("unexpected {:?}", other),
    }
    assert!(InstructionEnum::try_decode(&[2]).is_none());
    assert!(InstructionEnum::try_decode(&[2, 7, 0]).is_none());
}
