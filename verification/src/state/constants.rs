use crate::slot::Key32;
use vstd::prelude::*;

verus! {

/// Tag of the global counter record.
pub const CONFIG_VALIDATION_PHASE: u32 = 373_836_823;

/// Tag of a program page.
pub const STORAGE_VALIDATION_PHASE: u32 = 332_049_381;

/// Tag of a name page.
pub const NAME_STORAGE_VALIDATION_PHRASE: u32 = 938_283_942;

/// Tag of a marketplace page.
pub const MARKETPLACE_STORAGE_VALIDATION_PHRASE: u32 = 728_721_427;

/// Number of bytes that a stored name fills.
pub const MAX_NAME_LENGTH: usize = 12;

/// Flat fee, in lamports, that each registration pays to the treasury.
pub const PROGRAM_DEPLOYMENT_PAYBACK: u64 = 1_000_000_000;

/// Number of keys that one program page or marketplace page may hold.
pub const PAGE_CAPACITY_PROGRAMS: u32 = 625;

/// Number of names that one name page may hold.
pub const PAGE_CAPACITY_NAMES: u32 = 625;

/// The bytes of the registry's own address.
pub open spec fn id_bytes() -> Seq<u8> {
    seq![
        31u8, 184u8, 87u8, 40u8, 251u8, 104u8, 145u8, 20u8, 245u8, 235u8, 95u8, 137u8, 163u8, 101u8,
        93u8, 227u8, 175u8, 15u8, 7u8, 106u8, 68u8, 3u8, 204u8, 95u8, 105u8, 139u8, 146u8, 24u8,
        222u8, 41u8, 139u8, 84u8,
    ]
}

/// The registry's own address, `38pfsot7kCZkrttx1THEDXEz4JJXmCCcaDoDieRtVuy5` in base 58.
pub fn id() -> (key: Key32)
    ensures
        key@ == id_bytes(),
{
    let key = Key32::new(
        [
            31, 184, 87, 40, 251, 104, 145, 20, 245, 235, 95, 137, 163, 101, 93, 227, 175, 15, 7,
            106, 68, 3, 204, 95, 105, 139, 146, 24, 222, 41, 139, 84,
        ],
    );
    assert(key@ =~= id_bytes());
    key
}

/// The bytes of the treasury's address.
pub open spec fn team_id_bytes() -> Seq<u8> {
    seq![
        6u8, 211u8, 152u8, 94u8, 93u8, 193u8, 217u8, 136u8, 80u8, 206u8, 206u8, 144u8, 133u8, 45u8,
        13u8, 219u8, 186u8, 247u8, 139u8, 229u8, 253u8, 196u8, 40u8, 173u8, 99u8, 254u8, 217u8, 0u8,
        0u8, 0u8, 0u8, 0u8,
    ]
}

/// The treasury's address, `Team111111111111111111111111111111111111111` in base 58.
pub fn team_id() -> (key: Key32)
    ensures
        key@ == team_id_bytes(),
{
    let key = Key32::new(
        [
            6, 211, 152, 94, 93, 193, 217, 136, 80, 206, 206, 144, 133, 45, 13, 219, 186, 247, 139,
            229, 253, 196, 40, 173, 99, 254, 217, 0, 0, 0, 0, 0,
        ],
    );
    assert(key@ =~= team_id_bytes());
    key
}

} // verus!
