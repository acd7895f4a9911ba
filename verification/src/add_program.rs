use crate::allocator::{
    capacity_action, capacity_error, collateral_due, data_after, ensure_capacity, is_fresh,
    CapacityAction,
};
use crate::codec::header_spec;
use crate::error::RegistryError;
use crate::ledger::{
    config_seed, config_seed_spec, loader_bytes, loader_id, marketplace_storage_seed,
    marketplace_storage_seed_spec, name_storage_seed, name_storage_seed_spec, page_seeds,
    page_seeds_spec, single_seeds, single_seeds_spec, storage_seed, storage_seed_spec,
    system_program_id,
};
use crate::page::{lemma_entry_within, page_size};
use crate::pager::{page_index, page_index_spec};
use crate::record::{
    append_outcome, decode_header, decode_outcome, encode_header, encode_outcome, has_page_size,
};
use crate::slot::{models, Key32, Slot, SlotModel};
use crate::state::constants::{
    id_bytes, team_id, team_id_bytes, CONFIG_VALIDATION_PHASE,
    MARKETPLACE_STORAGE_VALIDATION_PHRASE, NAME_STORAGE_VALIDATION_PHRASE, PAGE_CAPACITY_NAMES,
    PAGE_CAPACITY_PROGRAMS, PROGRAM_DEPLOYMENT_PAYBACK, STORAGE_VALIDATION_PHASE,
};
use crate::state::{Config, MarketplaceStorage, NameStorage, Storage};
use crate::utils::{derived_address, AccountInfoHelpers};
use vstd::prelude::*;

verus! {

/// The least collateral of a page at two sizes: as an empty page, and with one
/// entry more than it holds now.
#[derive(Clone, Copy, Debug, PartialEq, Eq, Structural)]
pub struct RentQuote {
    pub init: u64,
    pub grown: u64,
}

/// What the ledger has to do to a page so that it can take one entry more.
#[derive(Clone, Copy, Debug, PartialEq, Eq, Structural)]
pub struct PageGrowth {
    /// Whether the page's slot has to be created, as an empty page.
    pub created: bool,
    /// The lamports to move from the payer to the page before it grows.
    pub transfer: u64,
    /// The size of the page afterwards.
    pub new_size: usize,
}

/// Whether `key` is the address that was derived.
pub open spec fn sits_at(key: Seq<u8>, derived: Option<(Seq<u8>, u8)>) -> bool {
    derived matches Some((k, _)) && k == key
}

/// A page and the payer's lamports after the page was made sure to exist: a
/// fresh slot becomes an empty page of kind `tag`, owned by the registry and
/// funded with `init_balance` by the payer; any other slot stays as it is.
pub open spec fn opened(page: SlotModel, payer_lamports: u64, tag: u32, init_balance: u64) -> Result<
    (SlotModel, u64),
    RegistryError,
> {
    if is_fresh(page.owner) {
        match capacity_error(
            page.owner,
            page.data.len(),
            page.lamports,
            payer_lamports,
            8,
            init_balance,
        ) {
            Some(e) => Err(e),
            None => Ok(
                (
                    SlotModel {
                        owner: id_bytes(),
                        lamports: init_balance,
                        data: header_spec(tag, 0),
                        ..page
                    },
                    (payer_lamports - init_balance) as u64,
                ),
            ),
        }
    } else {
        Ok((page, payer_lamports))
    }
}

/// Makes sure that a page exists: a fresh slot is created as an empty page of
/// kind `tag`. Returns whether it was created. On failure no slot changes.
pub fn open_page(page: &mut Slot, payer: &mut Slot, tag: u32, init_balance: u64) -> (r: Result<
    bool,
    RegistryError,
>)
    ensures
        final(payer).same_but_funds(old(payer)),
        match opened(old(page)@, old(payer).lamports, tag, init_balance) {
            Err(e) => {
                &&& r == Err::<bool, RegistryError>(e)
                &&& final(page)@ == old(page)@
                &&& final(payer)@ == old(payer)@
            },
            Ok((after, left)) => {
                &&& r == Ok::<bool, RegistryError>(is_fresh(old(page).owner@))
                &&& final(page)@ == after
                &&& final(payer).lamports == left
            },
        },
{
    let system = system_program_id();
    if !page.owner.same(&system) {
        return Ok(false);
    }
    ensure_capacity(page, payer, 8, init_balance)?;
    encode_header(page, tag, 0, 0)?;
    proof {
        crate::codec::lemma_header_round_trip(tag, 0, Seq::empty());
        assert(page.data@ =~= header_spec(tag, 0));
    }
    Ok(true)
}

/// A page, the payer's lamports and the page's count after the page was given
/// room for one entry more: the page has to hold a record of kind `tag` with
/// fewer than `capacity` entries in a buffer of exactly their size, is topped
/// up to `grown_balance` by the payer and grown to the size of a page with one
/// entry more.
pub open spec fn grown(
    page: SlotModel,
    payer_lamports: u64,
    tag: u32,
    width: int,
    capacity: u32,
    grown_balance: u64,
) -> Result<(SlotModel, u64, u32), RegistryError> {
    match decode_outcome(page.owner, page.data, tag) {
        Err(e) => Err(e),
        Ok(count) => if count >= capacity {
            Err(RegistryError::PageCapacityExceeded)
        } else if page.data.len() != page_size(width, count as int) {
            Err(RegistryError::BufferSizeMismatch)
        } else {
            let new_size = page_size(width, count + 1) as nat;
            match capacity_error(
                page.owner,
                page.data.len(),
                page.lamports,
                payer_lamports,
                new_size,
                grown_balance,
            ) {
                Some(e) => Err(e),
                None => {
                    let due = collateral_due(
                        page.owner,
                        page.data.len(),
                        page.lamports,
                        new_size,
                        grown_balance,
                    );
                    Ok(
                        (
                            SlotModel {
                                lamports: (page.lamports + due) as u64,
                                data: data_after(page.owner, page.data, new_size),
                                ..page
                            },
                            (payer_lamports - due) as u64,
                            count,
                        ),
                    )
                },
            }
        },
    }
}

/// Gives a page room for one entry more and returns the count that its header
/// holds, with what the ledger has to do. A full page has to fit into memory.
/// On failure no slot changes.
pub fn grow_page(
    page: &mut Slot,
    payer: &mut Slot,
    tag: u32,
    width: usize,
    capacity: u32,
    grown_balance: u64,
) -> (r: Result<(u32, CapacityAction), RegistryError>)
    requires
        page_size(width as int, capacity as int) <= usize::MAX,
    ensures
        final(payer).same_but_funds(old(payer)),
        match grown(old(page)@, old(payer).lamports, tag, width as int, capacity, grown_balance) {
            Err(e) => {
                &&& r == Err::<(u32, CapacityAction), RegistryError>(e)
                &&& final(page)@ == old(page)@
                &&& final(payer)@ == old(payer)@
            },
            Ok((after, left, count)) => {
                &&& r == Ok::<(u32, CapacityAction), RegistryError>(
                    (
                        count,
                        capacity_action(
                            old(page).owner@,
                            old(page).data@.len(),
                            old(page).lamports,
                            page_size(width as int, count + 1) as usize,
                            grown_balance,
                        ),
                    ),
                )
                &&& final(page)@ == after
                &&& final(payer).lamports == left
            },
        },
{
    let count = decode_header(page, tag)?;
    if count >= capacity {
        return Err(RegistryError::PageCapacityExceeded);
    }
    if !has_page_size(&page.data, width, count) {
        return Err(RegistryError::BufferSizeMismatch);
    }
    proof {
        lemma_entry_within(width as int, count as int, capacity as int);
        lemma_entry_within(width as int, 0, count + 1);
    }
    let new_size: usize = 8 + width * ((count + 1) as usize);
    let action = ensure_capacity(page, payer, new_size, grown_balance)?;
    Ok((count, action))
}

/// A page, the payer's lamports, the page's count and what the ledger has to
/// do, after the page was made sure to exist and given room for one entry more.
pub open spec fn ready(
    page: SlotModel,
    payer_lamports: u64,
    tag: u32,
    width: int,
    capacity: u32,
    rent: RentQuote,
) -> Result<(SlotModel, u64, u32, PageGrowth), RegistryError> {
    match opened(page, payer_lamports, tag, rent.init) {
        Err(e) => Err(e),
        Ok((first, left)) => match grown(first, left, tag, width, capacity, rent.grown) {
            Err(e) => Err(e),
            Ok((second, rest, count)) => Ok(
                (
                    second,
                    rest,
                    count,
                    PageGrowth {
                        created: is_fresh(page.owner),
                        transfer: (left - rest) as u64,
                        new_size: page_size(width, count + 1) as usize,
                    },
                ),
            ),
        },
    }
}

/// Makes sure that a page exists and has room for one entry more. Returns the
/// count that its header holds and what the ledger has to do. A full page has
/// to fit into memory. On failure no slot changes: a page that was created
/// and cannot be grown is given back as the fresh slot it was.
pub fn ready_page(
    page: &mut Slot,
    payer: &mut Slot,
    tag: u32,
    width: usize,
    capacity: u32,
    rent: RentQuote,
) -> (r: Result<(u32, PageGrowth), RegistryError>)
    requires
        page_size(width as int, capacity as int) <= usize::MAX,
    ensures
        final(payer).same_but_funds(old(payer)),
        match ready(old(page)@, old(payer).lamports, tag, width as int, capacity, rent) {
            Err(e) => {
                &&& r == Err::<(u32, PageGrowth), RegistryError>(e)
                &&& final(page)@ == old(page)@
                &&& final(payer)@ == old(payer)@
            },
            Ok((after, left, count, growth)) => {
                &&& r == Ok::<(u32, PageGrowth), RegistryError>((count, growth))
                &&& final(page)@ == after
                &&& final(payer).lamports == left
            },
        },
{
    let created = open_page(page, payer, tag, rent.init)?;
    let before = payer.lamports;
    match grow_page(page, payer, tag, width, capacity, rent.grown) {
        Ok((count, _)) => {
            proof {
                lemma_entry_within(width as int, count as int, capacity as int);
                lemma_entry_within(width as int, 0, count + 1);
            }
            let transfer = before - payer.lamports;
            let new_size: usize = 8 + width * ((count + 1) as usize);
            Ok((count, PageGrowth { created, transfer, new_size }))
        },
        Err(e) => {
            if created {
                page.owner = system_program_id();
                page.lamports = 0;
                page.data = Vec::new();
                payer.lamports = payer.lamports + rent.init;
                assert(page.data@ =~= old(page).data@);
            }
            Err(e)
        },
    }
}

/// The count of the global counter where a registration may go ahead, or the
/// reason why it may not: the unit to register has to be owned by the loader and
/// executable, the treasury has to be the fixed one, the counter's slot has to
/// sit at its derived address, belong to `program_id` and hold a counter that
/// can still be advanced.
pub open spec fn admission(program_id: Seq<u8>, unit: SlotModel, team: SlotModel, config: SlotModel) -> Result<
    u32,
    RegistryError,
> {
    if unit.owner != loader_bytes() {
        Err(RegistryError::OwnershipMismatch)
    } else if !unit.executable {
        Err(RegistryError::NotExecutable)
    } else if team.key != team_id_bytes() {
        Err(RegistryError::AddressMismatch)
    } else if !sits_at(
        config.key,
        derived_address(single_seeds_spec(config_seed_spec()), program_id),
    ) {
        Err(RegistryError::AddressMismatch)
    } else if config.owner != program_id {
        Err(RegistryError::OwnershipMismatch)
    } else {
        match decode_outcome(config.owner, config.data, CONFIG_VALIDATION_PHASE) {
            Err(e) => Err(e),
            Ok(count) => if count == u32::MAX {
                Err(RegistryError::ArithmeticOverflow)
            } else {
                Ok(count)
            },
        }
    }
}

/// Checks that a registration may go ahead and reads the global counter.
pub fn check_admission(program_id: &Key32, unit: &Slot, team: &Slot, config: &Slot) -> (r: Result<
    u32,
    RegistryError,
>)
    ensures
        r == admission(program_id@, unit@, team@, config@),
{
    let loader = loader_id();
    unit.assert_owner(&loader)?;
    if !unit.executable {
        return Err(RegistryError::NotExecutable);
    }
    let treasury = team_id();
    team.assert_key_match(&treasury)?;
    let seeds = single_seeds(config_seed());
    match config.assert_seed(program_id, &seeds) {
        Ok(_) => {},
        Err(e) => {
            return Err(e);
        },
    }
    config.assert_owner(program_id)?;
    let counter = Config::decode(config)?;
    if counter.validator_numeration == u32::MAX {
        return Err(RegistryError::ArithmeticOverflow);
    }
    Ok(counter.validator_numeration)
}

/// The lamports of payer and treasury after the fee was paid.
pub open spec fn fee_paid(payer_lamports: u64, team_lamports: u64) -> Result<
    (u64, u64),
    RegistryError,
> {
    if payer_lamports < PROGRAM_DEPLOYMENT_PAYBACK {
        Err(RegistryError::InsufficientFunds)
    } else if team_lamports + PROGRAM_DEPLOYMENT_PAYBACK > u64::MAX {
        Err(RegistryError::ArithmeticOverflow)
    } else {
        Ok(
            (
                (payer_lamports - PROGRAM_DEPLOYMENT_PAYBACK) as u64,
                (team_lamports + PROGRAM_DEPLOYMENT_PAYBACK) as u64,
            ),
        )
    }
}

/// Moves the registration fee from the payer to the treasury. On failure no
/// slot changes.
pub fn pay_fee(payer: &mut Slot, team: &mut Slot) -> (r: Result<(), RegistryError>)
    ensures
        final(payer).same_but_funds(old(payer)),
        final(team).same_but_funds(old(team)),
        match fee_paid(old(payer).lamports, old(team).lamports) {
            Err(e) => {
                &&& r == Err::<(), RegistryError>(e)
                &&& final(payer)@ == old(payer)@
                &&& final(team)@ == old(team)@
            },
            Ok((left, held)) => {
                &&& r is Ok
                &&& final(payer).lamports == left
                &&& final(team).lamports == held
            },
        },
{
    if payer.lamports < PROGRAM_DEPLOYMENT_PAYBACK {
        return Err(RegistryError::InsufficientFunds);
    }
    if team.lamports > u64::MAX - PROGRAM_DEPLOYMENT_PAYBACK {
        return Err(RegistryError::ArithmeticOverflow);
    }
    payer.lamports = payer.lamports - PROGRAM_DEPLOYMENT_PAYBACK;
    team.lamports = team.lamports + PROGRAM_DEPLOYMENT_PAYBACK;
    Ok(())
}

/// The counter's slot after the count `count` was advanced by one.
pub open spec fn counted(config: SlotModel, count: u32) -> Result<SlotModel, RegistryError> {
    match encode_outcome(config.data, CONFIG_VALIDATION_PHASE, (count + 1) as u32, 0) {
        Err(e) => Err(e),
        Ok(data) => Ok(SlotModel { data, ..config }),
    }
}

/// Writes the count that follows `count` into the counter's slot. On failure
/// the slot does not change.
pub fn advance_counter(config: &mut Slot, count: u32) -> (r: Result<(), RegistryError>)
    requires
        count < u32::MAX,
    ensures
        match counted(old(config)@, count) {
            Err(e) => r == Err::<(), RegistryError>(e) && final(config)@ == old(config)@,
            Ok(after) => r is Ok && final(config)@ == after,
        },
{
    let mut counter = Config::default();
    counter.validator_numeration = count + 1;
    counter.encode(config)
}

/// A page after `value` was written behind its `count` entries and the header
/// was written with the new count.
pub open spec fn stored(
    page: SlotModel,
    tag: u32,
    width: int,
    count: u32,
    capacity: u32,
    value: Seq<u8>,
    duplicate: RegistryError,
) -> Result<SlotModel, RegistryError> {
    match append_outcome(page.data, width, count, capacity, value, duplicate) {
        Err(e) => Err(e),
        Ok(written) => match encode_outcome(written, tag, (count + 1) as u32, width) {
            Err(e) => Err(e),
            Ok(data) => Ok(SlotModel { data, ..page }),
        },
    }
}

/// The slots that a marketplace registration changes.
pub struct MarketplaceSlots {
    pub payer: SlotModel,
    pub config: SlotModel,
    pub team: SlotModel,
    pub storage: SlotModel,
}

/// What registering the unit `unit` in the marketplace gives: the slots
/// afterwards and what the ledger has to do to the page, or the first failure
/// met. The steps, in their order: the registration is admitted; the page has to
/// sit at the address of the marketplace page that the counter falls into; the
/// page is made ready; the unit's key is stored; the fee is paid; the counter
/// is advanced.
#[verifier::opaque]
pub open spec fn marketplace_outcome(
    program_id: Seq<u8>,
    unit: SlotModel,
    slots: MarketplaceSlots,
    rent: RentQuote,
) -> Result<(MarketplaceSlots, PageGrowth), RegistryError> {
    match admission(program_id, unit, slots.team, slots.config) {
        Err(e) => Err(e),
        Ok(count) => if !sits_at(
            slots.storage.key,
            derived_address(
                page_seeds_spec(
                    marketplace_storage_seed_spec(),
                    page_index_spec(count as int, PAGE_CAPACITY_PROGRAMS as int) as u32,
                ),
                program_id,
            ),
        ) {
            Err(RegistryError::AddressMismatch)
        } else {
            match ready(
                slots.storage,
                slots.payer.lamports,
                MARKETPLACE_STORAGE_VALIDATION_PHRASE,
                32,
                PAGE_CAPACITY_PROGRAMS,
                rent,
            ) {
                Err(e) => Err(e),
                Ok((page, left, held, growth)) => match stored(
                    page,
                    MARKETPLACE_STORAGE_VALIDATION_PHRASE,
                    32,
                    held,
                    PAGE_CAPACITY_PROGRAMS,
                    unit.key,
                    RegistryError::DuplicateEntry,
                ) {
                    Err(e) => Err(e),
                    Ok(storage) => match fee_paid(left, slots.team.lamports) {
                        Err(e) => Err(e),
                        Ok((rest, treasury)) => match counted(slots.config, count) {
                            Err(e) => Err(e),
                            Ok(config) => Ok(
                                (
                                    MarketplaceSlots {
                                        payer: SlotModel { lamports: rest, ..slots.payer },
                                        config,
                                        team: SlotModel { lamports: treasury, ..slots.team },
                                        storage,
                                    },
                                    growth,
                                ),
                            ),
                        },
                    },
                },
            }
        },
    }
}

/// The steps of a marketplace registration, on slots that may be left half
/// changed where a step fails.
fn marketplace_steps(
    program_id: &Key32,
    payer: &mut Slot,
    config: &mut Slot,
    registered_program: &Slot,
    team: &mut Slot,
    storage: &mut Slot,
    rent: RentQuote,
) -> (r: Result<PageGrowth, RegistryError>)
    ensures
        match marketplace_outcome(
            program_id@,
            registered_program@,
            MarketplaceSlots {
                payer: old(payer)@,
                config: old(config)@,
                team: old(team)@,
                storage: old(storage)@,
            },
            rent,
        ) {
            Err(e) => r == Err::<PageGrowth, RegistryError>(e),
            Ok((after, growth)) => {
                &&& r == Ok::<PageGrowth, RegistryError>(growth)
                &&& final(payer)@ == after.payer
                &&& final(config)@ == after.config
                &&& final(team)@ == after.team
                &&& final(storage)@ == after.storage
            },
        },
{
    reveal(marketplace_outcome);
    let count = check_admission(program_id, registered_program, team, config)?;
    let index = page_index(count, PAGE_CAPACITY_PROGRAMS);
    let seeds = page_seeds(marketplace_storage_seed(), index);
    match storage.assert_seed(program_id, &seeds) {
        Ok(_) => {},
        Err(e) => {
            return Err(e);
        },
    }
    let (held, growth) = ready_page(
        storage,
        payer,
        MARKETPLACE_STORAGE_VALIDATION_PHRASE,
        32,
        PAGE_CAPACITY_PROGRAMS,
        rent,
    )?;
    let mut record = MarketplaceStorage {
        validation_phase: MARKETPLACE_STORAGE_VALIDATION_PHRASE,
        num_programs: held,
    };
    record.add_program(registered_program.key, storage)?;
    record.encode(storage)?;
    pay_fee(payer, team)?;
    advance_counter(config, count)?;
    Ok(growth)
}

/// Registers a program in the marketplace: checks the request, creates or grows
/// the marketplace page that the counter falls into, stores the program's key,
/// moves the fee from the payer to the treasury and advances the counter.
/// `rent` holds the least collateral of the page when empty and with one key
/// more. Returns what the ledger has to do to the page. On failure no slot
/// changes.
pub fn add_marketplace_program(
    program_id: &Key32,
    payer: &mut Slot,
    config: &mut Slot,
    registered_program: &Slot,
    team: &mut Slot,
    storage: &mut Slot,
    rent: RentQuote,
) -> (r: Result<PageGrowth, RegistryError>)
    ensures
        match marketplace_outcome(
            program_id@,
            registered_program@,
            MarketplaceSlots {
                payer: old(payer)@,
                config: old(config)@,
                team: old(team)@,
                storage: old(storage)@,
            },
            rent,
        ) {
            Err(e) => {
                &&& r == Err::<PageGrowth, RegistryError>(e)
                &&& final(payer)@ == old(payer)@
                &&& final(config)@ == old(config)@
                &&& final(team)@ == old(team)@
                &&& final(storage)@ == old(storage)@
            },
            Ok((after, growth)) => {
                &&& r == Ok::<PageGrowth, RegistryError>(growth)
                &&& final(payer)@ == after.payer
                &&& final(config)@ == after.config
                &&& final(team)@ == after.team
                &&& final(storage)@ == after.storage
            },
        },
{
    let mut new_payer = payer.duplicate();
    let mut new_config = config.duplicate();
    let mut new_team = team.duplicate();
    let mut new_storage = storage.duplicate();
    let growth = marketplace_steps(
        program_id,
        &mut new_payer,
        &mut new_config,
        registered_program,
        &mut new_team,
        &mut new_storage,
        rent,
    )?;
    *payer = new_payer;
    *config = new_config;
    *team = new_team;
    *storage = new_storage;
    Ok(growth)
}

/// Why the name pages before the current one cannot be used, if they cannot:
/// there have to be exactly `index` of them, and the page at position `i` has to
/// sit at the address of name page `i`.
pub open spec fn earlier_pages_error(program_id: Seq<u8>, earlier: Seq<SlotModel>, index: u32) -> Option<
    RegistryError,
> {
    if earlier.len() != index {
        Some(RegistryError::NotEnoughAccountKeys)
    } else if exists|i: int|
        0 <= i < earlier.len() && !sits_at(
            #[trigger] earlier[i].key,
            derived_address(page_seeds_spec(name_storage_seed_spec(), i as u32), program_id),
        ) {
        Some(RegistryError::AddressMismatch)
    } else {
        None
    }
}

/// Checks that `earlier` holds the name pages before page `index`, in their order.
pub fn check_earlier_pages(program_id: &Key32, earlier: &Vec<Slot>, index: u32) -> (r: Result<
    (),
    RegistryError,
>)
    ensures
        r == (match earlier_pages_error(program_id@, models(earlier@), index) {
            Some(e) => Err::<(), RegistryError>(e),
            None => Ok::<(), RegistryError>(()),
        }),
{
    if earlier.len() != index as usize {
        return Err(RegistryError::NotEnoughAccountKeys);
    }
    let mut i: u32 = 0;
    while i < index
        invariant
            i <= index,
            earlier@.len() == index,
            forall|j: int|
                0 <= j < i ==> sits_at(
                    #[trigger] models(earlier@)[j].key,
                    derived_address(
                        page_seeds_spec(name_storage_seed_spec(), j as u32),
                        program_id@,
                    ),
                ),
        decreases index - i,
    {
        let seeds = page_seeds(name_storage_seed(), i);
        match earlier[i as usize].assert_seed(program_id, &seeds) {
            Ok(_) => {},
            Err(e) => {
                assert(!sits_at(
                    models(earlier@)[i as int].key,
                    derived_address(
                        page_seeds_spec(name_storage_seed_spec(), i as u32),
                        program_id@,
                    ),
                ));
                return Err(e);
            },
        }
        i += 1;
    }
    Ok(())
}

/// A name page after the raw name `raw` was added behind its `count` names,
/// new among them and among the names of the pages of `earlier`, and the header
/// was written with the new count.
pub open spec fn named(page: SlotModel, count: u32, raw: Seq<char>, earlier: Seq<SlotModel>) -> Result<
    SlotModel,
    RegistryError,
> {
    match (NameStorage {
        validation_phrase: NAME_STORAGE_VALIDATION_PHRASE,
        num_names: count,
    }).add_name_outcome(page.data, raw, earlier) {
        Err(e) => Err(e),
        Ok(written) => match encode_outcome(
            written,
            NAME_STORAGE_VALIDATION_PHRASE,
            (count + 1) as u32,
            12,
        ) {
            Err(e) => Err(e),
            Ok(data) => Ok(SlotModel { data, ..page }),
        },
    }
}

/// The slots that the registration of a validator program changes.
pub struct ValidatorSlots {
    pub payer: SlotModel,
    pub config: SlotModel,
    pub team: SlotModel,
    pub storage: SlotModel,
    pub name_storage: SlotModel,
}

/// The least collateral of the name page and of the program page.
#[derive(Clone, Copy, Debug, PartialEq, Eq, Structural)]
pub struct ValidatorRent {
    pub names: RentQuote,
    pub storage: RentQuote,
}

/// What the ledger has to do to the name page and to the program page.
#[derive(Clone, Copy, Debug, PartialEq, Eq, Structural)]
pub struct ValidatorGrowth {
    pub names: PageGrowth,
    pub storage: PageGrowth,
}

/// What registering the unit `unit` under the raw name `raw` gives: the slots
/// afterwards and what the ledger has to do to the two pages, or the first
/// failure met. The steps, in their order: the registration is admitted; the
/// program page and the name page have to sit at the addresses of the pages
/// that the counter falls into, and `earlier` has to hold the name pages before;
/// the name page is made ready and the name stored; the program page is made
/// ready and the unit's key stored; the fee is paid; the counter is advanced.
#[verifier::opaque]
pub open spec fn validator_outcome(
    program_id: Seq<u8>,
    unit: SlotModel,
    slots: ValidatorSlots,
    earlier: Seq<SlotModel>,
    raw: Seq<char>,
    rent: ValidatorRent,
) -> Result<(ValidatorSlots, ValidatorGrowth), RegistryError> {
    match admission(program_id, unit, slots.team, slots.config) {
        Err(e) => Err(e),
        Ok(count) => {
            let program_page = page_index_spec(count as int, PAGE_CAPACITY_PROGRAMS as int) as u32;
            let name_page = page_index_spec(count as int, PAGE_CAPACITY_NAMES as int) as u32;
            if !sits_at(
                slots.storage.key,
                derived_address(page_seeds_spec(storage_seed_spec(), program_page), program_id),
            ) {
                Err(RegistryError::AddressMismatch)
            } else if !sits_at(
                slots.name_storage.key,
                derived_address(page_seeds_spec(name_storage_seed_spec(), name_page), program_id),
            ) {
                Err(RegistryError::AddressMismatch)
            } else {
                match earlier_pages_error(program_id, earlier, name_page) {
                    Some(e) => Err(e),
                    None => match ready(
                        slots.name_storage,
                        slots.payer.lamports,
                        NAME_STORAGE_VALIDATION_PHRASE,
                        12,
                        PAGE_CAPACITY_NAMES,
                        rent.names,
                    ) {
                        Err(e) => Err(e),
                        Ok((names, left, held_names, name_growth)) => match named(
                            names,
                            held_names,
                            raw,
                            earlier,
                        ) {
                            Err(e) => Err(e),
                            Ok(name_storage) => match ready(
                                slots.storage,
                                left,
                                STORAGE_VALIDATION_PHASE,
                                32,
                                PAGE_CAPACITY_PROGRAMS,
                                rent.storage,
                            ) {
                                Err(e) => Err(e),
                                Ok((page, rest, held, growth)) => match stored(
                                    page,
                                    STORAGE_VALIDATION_PHASE,
                                    32,
                                    held,
                                    PAGE_CAPACITY_PROGRAMS,
                                    unit.key,
                                    RegistryError::DuplicateEntry,
                                ) {
                                    Err(e) => Err(e),
                                    Ok(storage) => match fee_paid(rest, slots.team.lamports) {
                                        Err(e) => Err(e),
                                        Ok((last, treasury)) => match counted(slots.config, count) {
                                            Err(e) => Err(e),
                                            Ok(config) => Ok(
                                                (
                                                    ValidatorSlots {
                                                        payer: SlotModel {
                                                            lamports: last,
                                                            ..slots.payer
                                                        },
                                                        config,
                                                        team: SlotModel {
                                                            lamports: treasury,
                                                            ..slots.team
                                                        },
                                                        storage,
                                                        name_storage,
                                                    },
                                                    ValidatorGrowth {
                                                        names: name_growth,
                                                        storage: growth,
                                                    },
                                                ),
                                            ),
                                        },
                                    },
                                },
                            },
                        },
                    },
                }
            }
        },
    }
}

/// The steps of the registration of a validator program, on slots that may be
/// left half changed where a step fails.
fn validator_steps(
    program_id: &Key32,
    payer: &mut Slot,
    config: &mut Slot,
    registered_program: &Slot,
    team: &mut Slot,
    storage: &mut Slot,
    name_storage: &mut Slot,
    earlier: &Vec<Slot>,
    name: &str,
    rent: ValidatorRent,
) -> (r: Result<ValidatorGrowth, RegistryError>)
    ensures
        match validator_outcome(
            program_id@,
            registered_program@,
            ValidatorSlots {
                payer: old(payer)@,
                config: old(config)@,
                team: old(team)@,
                storage: old(storage)@,
                name_storage: old(name_storage)@,
            },
            models(earlier@),
            name@,
            rent,
        ) {
            Err(e) => r == Err::<ValidatorGrowth, RegistryError>(e),
            Ok((after, growth)) => {
                &&& r == Ok::<ValidatorGrowth, RegistryError>(growth)
                &&& final(payer)@ == after.payer
                &&& final(config)@ == after.config
                &&& final(team)@ == after.team
                &&& final(storage)@ == after.storage
                &&& final(name_storage)@ == after.name_storage
            },
        },
{
    reveal(validator_outcome);
    let count = check_admission(program_id, registered_program, team, config)?;
    let program_page = page_index(count, PAGE_CAPACITY_PROGRAMS);
    let name_page = page_index(count, PAGE_CAPACITY_NAMES);
    let seeds = page_seeds(storage_seed(), program_page);
    match storage.assert_seed(program_id, &seeds) {
        Ok(_) => {},
        Err(e) => {
            return Err(e);
        },
    }
    let name_seeds = page_seeds(name_storage_seed(), name_page);
    match name_storage.assert_seed(program_id, &name_seeds) {
        Ok(_) => {},
        Err(e) => {
            return Err(e);
        },
    }
    check_earlier_pages(program_id, earlier, name_page)?;
    let (held_names, name_growth) = ready_page(
        name_storage,
        payer,
        NAME_STORAGE_VALIDATION_PHRASE,
        12,
        PAGE_CAPACITY_NAMES,
        rent.names,
    )?;
    let mut names = NameStorage {
        validation_phrase: NAME_STORAGE_VALIDATION_PHRASE,
        num_names: held_names,
    };
    names.add_name(name, name_storage, earlier)?;
    names.encode(name_storage)?;
    let (held, growth) = ready_page(
        storage,
        payer,
        STORAGE_VALIDATION_PHASE,
        32,
        PAGE_CAPACITY_PROGRAMS,
        rent.storage,
    )?;
    let mut record = Storage { validation_phase: STORAGE_VALIDATION_PHASE, num_programs: held };
    record.add_program(registered_program.key, storage)?;
    record.encode(storage)?;
    pay_fee(payer, team)?;
    advance_counter(config, count)?;
    Ok(ValidatorGrowth { names: name_growth, storage: growth })
}

/// Registers a validator program under a name: checks the request, creates or
/// grows the name page and the program page that the counter falls into, stores
/// the normalized name, which has to be new in every name page, and the
/// program's key, moves the fee from the payer to the treasury and advances the
/// counter. `earlier` holds the name pages before the current one, oldest
/// first; `rent` holds the least collateral of each page when empty and with one
/// entry more. Returns what the ledger has to do to the pages. On failure no
/// slot changes.
pub fn add_permissionless_validator_program(
    program_id: &Key32,
    payer: &mut Slot,
    config: &mut Slot,
    registered_program: &Slot,
    team: &mut Slot,
    storage: &mut Slot,
    name_storage: &mut Slot,
    earlier: &Vec<Slot>,
    name: &str,
    rent: ValidatorRent,
) -> (r: Result<ValidatorGrowth, RegistryError>)
    ensures
        match validator_outcome(
            program_id@,
            registered_program@,
            ValidatorSlots {
                payer: old(payer)@,
                config: old(config)@,
                team: old(team)@,
                storage: old(storage)@,
                name_storage: old(name_storage)@,
            },
            models(earlier@),
            name@,
            rent,
        ) {
            Err(e) => {
                &&& r == Err::<ValidatorGrowth, RegistryError>(e)
                &&& final(payer)@ == old(payer)@
                &&& final(config)@ == old(config)@
                &&& final(team)@ == old(team)@
                &&& final(storage)@ == old(storage)@
                &&& final(name_storage)@ == old(name_storage)@
            },
            Ok((after, growth)) => {
                &&& r == Ok::<ValidatorGrowth, RegistryError>(growth)
                &&& final(payer)@ == after.payer
                &&& final(config)@ == after.config
                &&& final(team)@ == after.team
                &&& final(storage)@ == after.storage
                &&& final(name_storage)@ == after.name_storage
            },
        },
{
    let mut new_payer = payer.duplicate();
    let mut new_config = config.duplicate();
    let mut new_team = team.duplicate();
    let mut new_storage = storage.duplicate();
    let mut new_names = name_storage.duplicate();
    let growth = validator_steps(
        program_id,
        &mut new_payer,
        &mut new_config,
        registered_program,
        &mut new_team,
        &mut new_storage,
        &mut new_names,
        earlier,
        name,
        rent,
    )?;
    *payer = new_payer;
    *config = new_config;
    *team = new_team;
    *storage = new_storage;
    *name_storage = new_names;
    Ok(growth)
}

} // verus!
