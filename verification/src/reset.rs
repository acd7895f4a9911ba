use crate::add_program::sits_at;
use crate::allocator::{capacity_error, ensure_capacity, is_fresh, CapacityAction};
use crate::codec::{header_bytes, header_spec};
use crate::error::RegistryError;
use crate::ledger::{
    config_seed, config_seed_spec, marketplace_storage_seed, marketplace_storage_seed_spec,
    name_storage_seed, name_storage_seed_spec, page_seeds, page_seeds_spec, single_seeds,
    single_seeds_spec, storage_seed, storage_seed_spec, system_program_id,
};
use crate::pager::{page_index, page_index_spec, page_offset_spec, reset_floor};
use crate::record::{decode_outcome, encode_outcome};
use crate::slot::{Key32, Slot, SlotModel};
use crate::state::constants::{
    id, id_bytes, CONFIG_VALIDATION_PHASE, MARKETPLACE_STORAGE_VALIDATION_PHRASE,
    NAME_STORAGE_VALIDATION_PHRASE, PAGE_CAPACITY_NAMES, PAGE_CAPACITY_PROGRAMS,
    STORAGE_VALIDATION_PHASE,
};
use crate::state::Config;
use crate::utils::{derived_address, AccountInfoHelpers};
use vstd::prelude::*;

verus! {

/// What creating the global counter gives: the counter's slot and the payer's
/// lamports afterwards, or the first failure met. The slot has to sit at the
/// counter's address and to be fresh; it is created with eight bytes, funded
/// with `min_balance` by the payer, and holds a counter that stands at zero.
pub open spec fn init_outcome(
    program_id: Seq<u8>,
    payer_lamports: u64,
    config: SlotModel,
    min_balance: u64,
) -> Result<(SlotModel, u64), RegistryError> {
    if !sits_at(config.key, derived_address(single_seeds_spec(config_seed_spec()), program_id)) {
        Err(RegistryError::AddressMismatch)
    } else if !is_fresh(config.owner) {
        Err(RegistryError::AlreadyInitialized)
    } else {
        match capacity_error(
            config.owner,
            config.data.len(),
            config.lamports,
            payer_lamports,
            8,
            min_balance,
        ) {
            Some(e) => Err(e),
            None => Ok(
                (
                    SlotModel {
                        owner: id_bytes(),
                        lamports: min_balance,
                        data: header_spec(CONFIG_VALIDATION_PHASE, 0),
                        ..config
                    },
                    (payer_lamports - min_balance) as u64,
                ),
            ),
        }
    }
}

/// Creates the global counter, standing at zero, in its slot. `min_balance` is
/// the least collateral of a slot of eight bytes. On failure no slot changes.
pub fn init_config(program_id: &Key32, payer: &mut Slot, config: &mut Slot, min_balance: u64) -> (r:
    Result<CapacityAction, RegistryError>)
    ensures
        final(payer).same_but_funds(old(payer)),
        match init_outcome(program_id@, old(payer).lamports, old(config)@, min_balance) {
            Err(e) => {
                &&& r == Err::<CapacityAction, RegistryError>(e)
                &&& final(config)@ == old(config)@
                &&& final(payer).lamports == old(payer).lamports
            },
            Ok((after, left)) => {
                &&& r == Ok::<CapacityAction, RegistryError>(
                    CapacityAction::Created { space: 8, lamports: min_balance },
                )
                &&& final(config)@ == after
                &&& final(payer).lamports == left
            },
        },
{
    let seeds = single_seeds(config_seed());
    match config.assert_seed(program_id, &seeds) {
        Ok(_) => {},
        Err(e) => {
            return Err(e);
        },
    }
    let system = system_program_id();
    if !config.owner.same(&system) {
        return Err(RegistryError::AlreadyInitialized);
    }
    let action = ensure_capacity(config, payer, 8, min_balance)?;
    let counter = Config::default();
    let written = counter.encode(config);
    proof {
        crate::codec::lemma_header_round_trip(CONFIG_VALIDATION_PHASE, 0, Seq::empty());
        assert(config.data@ =~= header_spec(CONFIG_VALIDATION_PHASE, 0));
    }
    match written {
        Ok(()) => Ok(action),
        Err(e) => Err(e),
    }
}

/// How far a reset goes.
#[derive(Clone, Copy, Debug, PartialEq, Eq, Structural)]
pub enum ResetKind {
    /// The counter goes back to zero; the pages handed in are the first of each kind.
    Full,
    /// The counter goes back to the first entry of the page that it falls into;
    /// the pages handed in are the ones that it falls into.
    PageAligned,
}

/// The count that a reset leaves.
pub open spec fn reset_count(kind: ResetKind, count: u32) -> u32 {
    match kind {
        ResetKind::Full => 0,
        ResetKind::PageAligned => (count - page_offset_spec(
            count as int,
            PAGE_CAPACITY_PROGRAMS as int,
        )) as u32,
    }
}

/// A page after a reset: a fresh slot stays as it is, a page of the registry
/// becomes an empty page of kind `tag`, a slot of another owner is refused.
pub open spec fn page_reset(page: SlotModel, tag: u32) -> Result<SlotModel, RegistryError> {
    if is_fresh(page.owner) {
        Ok(page)
    } else if page.owner != id_bytes() {
        Err(RegistryError::OwnershipMismatch)
    } else {
        Ok(SlotModel { data: header_spec(tag, 0), ..page })
    }
}

/// Empties a page of kind `tag`. On failure the slot does not change.
pub fn reset_page(page: &mut Slot, tag: u32) -> (r: Result<(), RegistryError>)
    ensures
        match page_reset(old(page)@, tag) {
            Err(e) => r == Err::<(), RegistryError>(e) && final(page)@ == old(page)@,
            Ok(after) => r is Ok && final(page)@ == after,
        },
{
    let system = system_program_id();
    if page.owner.same(&system) {
        return Ok(());
    }
    let registry = id();
    if !page.owner.same(&registry) {
        return Err(RegistryError::OwnershipMismatch);
    }
    page.data = header_bytes(tag, 0);
    Ok(())
}

/// The slots that a reset changes.
pub struct ResetSlots {
    pub config: SlotModel,
    pub storage: SlotModel,
    pub name_storage: SlotModel,
    pub marketplace_storage: SlotModel,
}

/// What a reset gives: the slots afterwards and the count that the counter
/// holds then, or the first failure met. The counter's slot has to sit at its
/// address and hold a counter; each page has to sit at the address of the page
/// of its kind that the reset touches; the counter is written with the count
/// that the reset leaves; the three pages are emptied.
#[verifier::opaque]
pub open spec fn reset_outcome(program_id: Seq<u8>, slots: ResetSlots, kind: ResetKind) -> Result<
    (ResetSlots, u32),
    RegistryError,
> {
    if !sits_at(
        slots.config.key,
        derived_address(single_seeds_spec(config_seed_spec()), program_id),
    ) {
        Err(RegistryError::AddressMismatch)
    } else {
        match decode_outcome(slots.config.owner, slots.config.data, CONFIG_VALIDATION_PHASE) {
            Err(e) => Err(e),
            Ok(count) => {
                let base = match kind {
                    ResetKind::Full => 0u32,
                    ResetKind::PageAligned => count,
                };
                let program_page = page_index_spec(base as int, PAGE_CAPACITY_PROGRAMS as int) as u32;
                let name_page = page_index_spec(base as int, PAGE_CAPACITY_NAMES as int) as u32;
                if !sits_at(
                    slots.storage.key,
                    derived_address(page_seeds_spec(storage_seed_spec(), program_page), program_id),
                ) {
                    Err(RegistryError::AddressMismatch)
                } else if !sits_at(
                    slots.name_storage.key,
                    derived_address(
                        page_seeds_spec(name_storage_seed_spec(), name_page),
                        program_id,
                    ),
                ) {
                    Err(RegistryError::AddressMismatch)
                } else if !sits_at(
                    slots.marketplace_storage.key,
                    derived_address(
                        page_seeds_spec(marketplace_storage_seed_spec(), program_page),
                        program_id,
                    ),
                ) {
                    Err(RegistryError::AddressMismatch)
                } else {
                    match encode_outcome(
                        slots.config.data,
                        CONFIG_VALIDATION_PHASE,
                        reset_count(kind, count),
                        0,
                    ) {
                        Err(e) => Err(e),
                        Ok(data) => match page_reset(slots.storage, STORAGE_VALIDATION_PHASE) {
                            Err(e) => Err(e),
                            Ok(storage) => match page_reset(
                                slots.name_storage,
                                NAME_STORAGE_VALIDATION_PHRASE,
                            ) {
                                Err(e) => Err(e),
                                Ok(name_storage) => match page_reset(
                                    slots.marketplace_storage,
                                    MARKETPLACE_STORAGE_VALIDATION_PHRASE,
                                ) {
                                    Err(e) => Err(e),
                                    Ok(marketplace_storage) => Ok(
                                        (
                                            ResetSlots {
                                                config: SlotModel { data, ..slots.config },
                                                storage,
                                                name_storage,
                                                marketplace_storage,
                                            },
                                            reset_count(kind, count),
                                        ),
                                    ),
                                },
                            },
                        },
                    }
                }
            },
        }
    }
}

/// The steps of a reset, on slots that may be left half changed where a step fails.
fn reset_steps(
    program_id: &Key32,
    config: &mut Slot,
    storage: &mut Slot,
    name_storage: &mut Slot,
    marketplace_storage: &mut Slot,
    kind: ResetKind,
) -> (r: Result<u32, RegistryError>)
    ensures
        match reset_outcome(
            program_id@,
            ResetSlots {
                config: old(config)@,
                storage: old(storage)@,
                name_storage: old(name_storage)@,
                marketplace_storage: old(marketplace_storage)@,
            },
            kind,
        ) {
            Err(e) => r == Err::<u32, RegistryError>(e),
            Ok((after, count)) => {
                &&& r == Ok::<u32, RegistryError>(count)
                &&& final(config)@ == after.config
                &&& final(storage)@ == after.storage
                &&& final(name_storage)@ == after.name_storage
                &&& final(marketplace_storage)@ == after.marketplace_storage
            },
        },
{
    reveal(reset_outcome);
    let seeds = single_seeds(config_seed());
    match config.assert_seed(program_id, &seeds) {
        Ok(_) => {},
        Err(e) => {
            return Err(e);
        },
    }
    let mut counter = Config::decode(config)?;
    let count = counter.validator_numeration;
    let base = match kind {
        ResetKind::Full => 0,
        ResetKind::PageAligned => count,
    };
    let program_page = page_index(base, PAGE_CAPACITY_PROGRAMS);
    let name_page = page_index(base, PAGE_CAPACITY_NAMES);
    match storage.assert_seed(program_id, &page_seeds(storage_seed(), program_page)) {
        Ok(_) => {},
        Err(e) => {
            return Err(e);
        },
    }
    match name_storage.assert_seed(program_id, &page_seeds(name_storage_seed(), name_page)) {
        Ok(_) => {},
        Err(e) => {
            return Err(e);
        },
    }
    match marketplace_storage.assert_seed(
        program_id,
        &page_seeds(marketplace_storage_seed(), program_page),
    ) {
        Ok(_) => {},
        Err(e) => {
            return Err(e);
        },
    }
    let left = match kind {
        ResetKind::Full => 0,
        ResetKind::PageAligned => reset_floor(count, PAGE_CAPACITY_PROGRAMS),
    };
    counter.validator_numeration = left;
    counter.encode(config)?;
    reset_page(storage, STORAGE_VALIDATION_PHASE)?;
    reset_page(name_storage, NAME_STORAGE_VALIDATION_PHRASE)?;
    reset_page(marketplace_storage, MARKETPLACE_STORAGE_VALIDATION_PHRASE)?;
    Ok(left)
}

/// Resets the registry: sets the counter back, to zero or to the first entry of
/// the page that it falls into, and empties the pages handed in. Returns the
/// count that the counter holds afterwards. On failure no slot changes.
pub fn reset(
    program_id: &Key32,
    config: &mut Slot,
    storage: &mut Slot,
    name_storage: &mut Slot,
    marketplace_storage: &mut Slot,
    kind: ResetKind,
) -> (r: Result<u32, RegistryError>)
    ensures
        match reset_outcome(
            program_id@,
            ResetSlots {
                config: old(config)@,
                storage: old(storage)@,
                name_storage: old(name_storage)@,
                marketplace_storage: old(marketplace_storage)@,
            },
            kind,
        ) {
            Err(e) => {
                &&& r == Err::<u32, RegistryError>(e)
                &&& final(config)@ == old(config)@
                &&& final(storage)@ == old(storage)@
                &&& final(name_storage)@ == old(name_storage)@
                &&& final(marketplace_storage)@ == old(marketplace_storage)@
            },
            Ok((after, count)) => {
                &&& r == Ok::<u32, RegistryError>(count)
                &&& final(config)@ == after.config
                &&& final(storage)@ == after.storage
                &&& final(name_storage)@ == after.name_storage
                &&& final(marketplace_storage)@ == after.marketplace_storage
            },
        },
{
    let mut new_config = config.duplicate();
    let mut new_storage = storage.duplicate();
    let mut new_names = name_storage.duplicate();
    let mut new_market = marketplace_storage.duplicate();
    let count = reset_steps(
        program_id,
        &mut new_config,
        &mut new_storage,
        &mut new_names,
        &mut new_market,
        kind,
    )?;
    *config = new_config;
    *storage = new_storage;
    *name_storage = new_names;
    *marketplace_storage = new_market;
    Ok(count)
}

} // verus!
