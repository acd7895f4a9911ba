use crate::slot::Key32;
use vstd::prelude::*;

verus! {

/// The bytes of the key under which the ledger holds slots that nobody has
/// claimed yet: thirty-two zeros.
pub open spec fn system_program_bytes() -> Seq<u8> {
    Seq::new(32, |i: int| 0u8)
}

/// Calls solana_program's `system_program::id`.
/// Trusted: the system program's key is thirty-two zero bytes.
#[verifier::external_body]
pub(crate) fn system_program_id() -> (key: Key32)
    ensures
        key@ == system_program_bytes(),
{
    Key32 { bytes: solana_program::system_program::id().to_bytes() }
}

/// The bytes of the key of the loader that owns upgradeable programs,
/// `BPFLoaderUpgradeab1e11111111111111111111111` in base 58.
pub open spec fn loader_bytes() -> Seq<u8> {
    seq![
        2u8, 168u8, 246u8, 145u8, 78u8, 136u8, 161u8, 176u8, 226u8, 16u8, 21u8, 62u8, 247u8, 99u8,
        174u8, 43u8, 0u8, 194u8, 185u8, 61u8, 22u8, 193u8, 36u8, 210u8, 192u8, 83u8, 122u8, 16u8,
        4u8, 128u8, 0u8, 0u8,
    ]
}

/// Calls solana_program's `bpf_loader_upgradeable::id`.
/// Trusted: the loader's key is the thirty-two bytes of `loader_bytes`.
#[verifier::external_body]
pub(crate) fn loader_id() -> (key: Key32)
    ensures
        key@ == loader_bytes(),
{
    Key32 { bytes: solana_program::bpf_loader_upgradeable::id().to_bytes() }
}

/// The namespace of the global counter: the bytes of `config`.
pub open spec fn config_seed_spec() -> Seq<u8> {
    seq![99u8, 111u8, 110u8, 102u8, 105u8, 103u8]
}

/// The namespace of the global counter.
pub fn config_seed() -> (seed: Vec<u8>)
    ensures
        seed@ == config_seed_spec(),
{
    let seed: Vec<u8> = vec![99u8, 111u8, 110u8, 102u8, 105u8, 103u8];
    assert(seed@ =~= config_seed_spec());
    seed
}

/// The namespace of program pages: the bytes of `storage`.
pub open spec fn storage_seed_spec() -> Seq<u8> {
    seq![115u8, 116u8, 111u8, 114u8, 97u8, 103u8, 101u8]
}

/// The namespace of program pages.
pub fn storage_seed() -> (seed: Vec<u8>)
    ensures
        seed@ == storage_seed_spec(),
{
    let seed: Vec<u8> = vec![115u8, 116u8, 111u8, 114u8, 97u8, 103u8, 101u8];
    assert(seed@ =~= storage_seed_spec());
    seed
}

/// The namespace of name pages: the bytes of `name_storage`.
pub open spec fn name_storage_seed_spec() -> Seq<u8> {
    seq![110u8, 97u8, 109u8, 101u8, 95u8, 115u8, 116u8, 111u8, 114u8, 97u8, 103u8, 101u8]
}

/// The namespace of name pages.
pub fn name_storage_seed() -> (seed: Vec<u8>)
    ensures
        seed@ == name_storage_seed_spec(),
{
    let seed: Vec<u8> = vec![110u8, 97u8, 109u8, 101u8, 95u8, 115u8, 116u8, 111u8, 114u8, 97u8, 103u8, 101u8];
    assert(seed@ =~= name_storage_seed_spec());
    seed
}

/// The namespace of marketplace pages: the bytes of `marketplace_storage`.
pub open spec fn marketplace_storage_seed_spec() -> Seq<u8> {
    seq![109u8, 97u8, 114u8, 107u8, 101u8, 116u8, 112u8, 108u8, 97u8, 99u8, 101u8, 95u8, 115u8, 116u8, 111u8, 114u8, 97u8, 103u8, 101u8]
}

/// The namespace of marketplace pages.
pub fn marketplace_storage_seed() -> (seed: Vec<u8>)
    ensures
        seed@ == marketplace_storage_seed_spec(),
{
    let seed: Vec<u8> = vec![109u8, 97u8, 114u8, 107u8, 101u8, 116u8, 112u8, 108u8, 97u8, 99u8, 101u8, 95u8, 115u8, 116u8, 111u8, 114u8, 97u8, 103u8, 101u8];
    assert(seed@ =~= marketplace_storage_seed_spec());
    seed
}

/// The four bytes that stand for `x`, highest byte first.
pub open spec fn u32_be(x: u32) -> Seq<u8> {
    seq![
        ((x / 16777216) % 256) as u8,
        ((x / 65536) % 256) as u8,
        ((x / 256) % 256) as u8,
        (x % 256) as u8,
    ]
}

/// The seeds of the slot of a record that has no pages: its namespace alone.
pub open spec fn single_seeds_spec(namespace: Seq<u8>) -> Seq<Seq<u8>> {
    seq![namespace]
}

/// The seeds of the slot of page `index` in a namespace: the namespace, then
/// the index, highest byte first.
pub open spec fn page_seeds_spec(namespace: Seq<u8>, index: u32) -> Seq<Seq<u8>> {
    seq![namespace, u32_be(index)]
}

/// The seeds of the slot of a record that has no pages.
pub fn single_seeds(namespace: Vec<u8>) -> (seeds: Vec<Vec<u8>>)
    ensures
        seeds.deep_view() == single_seeds_spec(namespace@),
{
    let ghost name = namespace@;
    let mut seeds: Vec<Vec<u8>> = Vec::new();
    seeds.push(namespace);
    assert(seeds.deep_view()[0] =~= name);
    assert(seeds.deep_view() =~= single_seeds_spec(name));
    seeds
}

/// The seeds of the slot of page `index` in a namespace.
pub fn page_seeds(namespace: Vec<u8>, index: u32) -> (seeds: Vec<Vec<u8>>)
    ensures
        seeds.deep_view() == page_seeds_spec(namespace@, index),
{
    let ghost name = namespace@;
    let mut suffix: Vec<u8> = Vec::new();
    suffix.push(((index / 16777216) % 256) as u8);
    suffix.push(((index / 65536) % 256) as u8);
    suffix.push(((index / 256) % 256) as u8);
    suffix.push((index % 256) as u8);
    assert(suffix@ =~= u32_be(index));
    let mut seeds: Vec<Vec<u8>> = Vec::new();
    seeds.push(namespace);
    seeds.push(suffix);
    assert(seeds.deep_view()[0] =~= name);
    assert(seeds.deep_view()[1] =~= u32_be(index));
    assert(seeds.deep_view() =~= page_seeds_spec(name, index));
    seeds
}

} // verus!
