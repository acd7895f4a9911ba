pub mod add_program;
pub mod allocator;
pub mod codec;
pub mod coherence;
pub mod error;
pub mod laws;
pub mod ledger;
pub mod name;
pub mod page;
pub mod pager;
pub mod record;
pub mod reset;
pub mod slot;
pub mod state;
pub mod utils;

use crate::add_program::{
    add_marketplace_program, add_permissionless_validator_program, marketplace_outcome,
    validator_outcome, MarketplaceSlots, PageGrowth, RentQuote, ValidatorGrowth, ValidatorRent,
    ValidatorSlots,
};
use crate::allocator::CapacityAction;
use crate::codec::{borsh_get_string, borsh_get_u8, framed_text, is_framed_text};
use crate::error::RegistryError;
use crate::reset::{init_config, init_outcome, reset, reset_outcome, ResetKind, ResetSlots};
use crate::slot::{models, Key32, Slot, SlotModel};
use crate::state::constants::id_bytes;
use vstd::prelude::*;
use vstd::slice::slice_subrange;

verus! {

/// The operations that the registry can be asked for.
#[derive(Debug)]
pub enum InstructionEnum {
    InitConfig,
    AddValidatorProgram { name: String },
    RemovePrograms { program_count: u8 },
    AddMarketplaceProgram,
    Reset,
    Blank,
}

/// An operation with its text as a sequence of characters.
pub enum InstructionModel {
    InitConfig,
    AddValidatorProgram { name: Seq<char> },
    RemovePrograms { program_count: u8 },
    AddMarketplaceProgram,
    Reset,
    Blank,
}

impl View for InstructionEnum {
    type V = InstructionModel;

    open spec fn view(&self) -> InstructionModel {
        match self {
            InstructionEnum::InitConfig => InstructionModel::InitConfig,
            InstructionEnum::AddValidatorProgram { name } => InstructionModel::AddValidatorProgram {
                name: name@,
            },
            InstructionEnum::RemovePrograms { program_count } => InstructionModel::RemovePrograms {
                program_count: *program_count,
            },
            InstructionEnum::AddMarketplaceProgram => InstructionModel::AddMarketplaceProgram,
            InstructionEnum::Reset => InstructionModel::Reset,
            InstructionEnum::Blank => InstructionModel::Blank,
        }
    }
}

/// The operation that instruction bytes stand for: one byte that numbers the
/// operation, then its fields and nothing more. `AddValidatorProgram` carries a
/// length-prefixed text, `RemovePrograms` one byte, the others nothing.
pub open spec fn instruction_of(input: Seq<u8>) -> Option<InstructionModel> {
    if input.len() == 0 {
        None
    } else {
        let rest = input.subrange(1, input.len() as int);
        if input[0] == 0 && rest.len() == 0 {
            Some(InstructionModel::InitConfig)
        } else if input[0] == 1 && is_framed_text(rest) {
            Some(InstructionModel::AddValidatorProgram { name: framed_text(rest) })
        } else if input[0] == 2 && rest.len() == 1 {
            Some(InstructionModel::RemovePrograms { program_count: rest[0] })
        } else if input[0] == 3 && rest.len() == 0 {
            Some(InstructionModel::AddMarketplaceProgram)
        } else if input[0] == 4 && rest.len() == 0 {
            Some(InstructionModel::Reset)
        } else if input[0] == 5 && rest.len() == 0 {
            Some(InstructionModel::Blank)
        } else {
            None
        }
    }
}

impl InstructionEnum {
    /// Reads an operation out of instruction bytes, or returns `None` where the
    /// bytes stand for none.
    pub fn try_decode(input: &[u8]) -> (r: Option<InstructionEnum>)
        ensures
            r is Some <==> instruction_of(input@) is Some,
            r matches Some(instruction) ==> instruction_of(input@) == Some(instruction@),
    {
        if input.len() == 0 {
            return None;
        }
        let tag = match borsh_get_u8(slice_subrange(input, 0, 1)) {
            Some(t) => t,
            None => {
                return None;
            },
        };
        let rest = slice_subrange(input, 1, input.len());
        if tag == 1 {
            match borsh_get_string(rest) {
                Some(name) => Some(InstructionEnum::AddValidatorProgram { name }),
                None => None,
            }
        } else if tag == 2 {
            match borsh_get_u8(rest) {
                Some(program_count) => Some(InstructionEnum::RemovePrograms { program_count }),
                None => None,
            }
        } else if rest.len() != 0 {
            None
        } else if tag == 0 {
            Some(InstructionEnum::InitConfig)
        } else if tag == 3 {
            Some(InstructionEnum::AddMarketplaceProgram)
        } else if tag == 4 {
            Some(InstructionEnum::Reset)
        } else if tag == 5 {
            Some(InstructionEnum::Blank)
        } else {
            None
        }
    }

    /// Reads an operation out of instruction bytes that stand for one.
    pub fn decode(input: &[u8]) -> (instruction: Self)
        requires
            instruction_of(input@) is Some,
        ensures
            instruction_of(input@) == Some(instruction@),
    {
        let parsed = Self::try_decode(input);
        parsed.unwrap()
    }
}

/// The least collateral that the ledger asks for the slots that an instruction
/// may create or grow.
#[derive(Clone, Copy, Debug, PartialEq, Eq, Structural)]
pub struct InstructionRent {
    /// For the global counter's slot of eight bytes.
    pub config: u64,
    /// For the name page, when empty and with one name more.
    pub names: RentQuote,
    /// For the program page or marketplace page, when empty and with one key more.
    pub storage: RentQuote,
}

/// What an instruction did, with what the ledger has to do for it.
#[derive(Clone, Copy, Debug, PartialEq, Eq, Structural)]
pub enum Outcome {
    /// The global counter was created.
    Initialized(CapacityAction),
    /// A validator program was registered.
    Validator(ValidatorGrowth),
    /// A marketplace program was registered.
    Marketplace(PageGrowth),
    /// The registry was reset; the counter holds the count given.
    Reset(u32),
}

/// What creating the counter gives for the slots of an instruction: payer
/// first, then the counter's slot.
pub open spec fn init_dispatch(program_id: Seq<u8>, accounts: Seq<SlotModel>, rent: InstructionRent) -> Result<
    (Seq<SlotModel>, Outcome),
    RegistryError,
> {
    if accounts.len() < 2 {
        Err(RegistryError::NotEnoughAccountKeys)
    } else {
        match init_outcome(program_id, accounts[0].lamports, accounts[1], rent.config) {
            Err(e) => Err(e),
            Ok((config, left)) => Ok(
                (
                    accounts.update(0, SlotModel { lamports: left, ..accounts[0] }).update(
                        1,
                        config,
                    ),
                    Outcome::Initialized(
                        CapacityAction::Created { space: 8, lamports: rent.config },
                    ),
                ),
            ),
        }
    }
}

/// What registering a validator program gives for the slots of an
/// instruction: payer, counter, the unit to register, treasury, program page,
/// name page, then the name pages before it.
pub open spec fn validator_dispatch(
    program_id: Seq<u8>,
    accounts: Seq<SlotModel>,
    name: Seq<char>,
    rent: InstructionRent,
) -> Result<(Seq<SlotModel>, Outcome), RegistryError> {
    if accounts.len() < 6 {
        Err(RegistryError::NotEnoughAccountKeys)
    } else {
        match validator_outcome(
            program_id,
            accounts[2],
            ValidatorSlots {
                payer: accounts[0],
                config: accounts[1],
                team: accounts[3],
                storage: accounts[4],
                name_storage: accounts[5],
            },
            accounts.subrange(6, accounts.len() as int),
            name,
            ValidatorRent { names: rent.names, storage: rent.storage },
        ) {
            Err(e) => Err(e),
            Ok((after, growth)) => Ok(
                (
                    accounts.update(0, after.payer).update(1, after.config).update(
                        3,
                        after.team,
                    ).update(4, after.storage).update(5, after.name_storage),
                    Outcome::Validator(growth),
                ),
            ),
        }
    }
}

/// What registering a marketplace program gives for the slots of an
/// instruction: payer, counter, the unit to register, treasury, marketplace page.
pub open spec fn marketplace_dispatch(
    program_id: Seq<u8>,
    accounts: Seq<SlotModel>,
    rent: InstructionRent,
) -> Result<(Seq<SlotModel>, Outcome), RegistryError> {
    if accounts.len() < 5 {
        Err(RegistryError::NotEnoughAccountKeys)
    } else {
        match marketplace_outcome(
            program_id,
            accounts[2],
            MarketplaceSlots {
                payer: accounts[0],
                config: accounts[1],
                team: accounts[3],
                storage: accounts[4],
            },
            rent.storage,
        ) {
            Err(e) => Err(e),
            Ok((after, growth)) => Ok(
                (
                    accounts.update(0, after.payer).update(1, after.config).update(
                        3,
                        after.team,
                    ).update(4, after.storage),
                    Outcome::Marketplace(growth),
                ),
            ),
        }
    }
}

/// What a reset gives for the slots of an instruction: payer, counter, program
/// page, name page, marketplace page. The counter goes back to the first entry
/// of the page that it falls into.
pub open spec fn reset_dispatch(program_id: Seq<u8>, accounts: Seq<SlotModel>) -> Result<
    (Seq<SlotModel>, Outcome),
    RegistryError,
> {
    if accounts.len() < 5 {
        Err(RegistryError::NotEnoughAccountKeys)
    } else {
        match reset_outcome(
            program_id,
            ResetSlots {
                config: accounts[1],
                storage: accounts[2],
                name_storage: accounts[3],
                marketplace_storage: accounts[4],
            },
            ResetKind::PageAligned,
        ) {
            Err(e) => Err(e),
            Ok((after, count)) => Ok(
                (
                    accounts.update(1, after.config).update(2, after.storage).update(
                        3,
                        after.name_storage,
                    ).update(4, after.marketplace_storage),
                    Outcome::Reset(count),
                ),
            ),
        }
    }
}

/// What processing an instruction gives: what every slot holds afterwards and
/// what was done, or the first failure met. The bytes have to stand for an
/// operation. Removing programs and the blank operation are refused.
pub open spec fn dispatch_outcome(
    program_id: Seq<u8>,
    accounts: Seq<SlotModel>,
    input: Seq<u8>,
    rent: InstructionRent,
) -> Result<(Seq<SlotModel>, Outcome), RegistryError> {
    match instruction_of(input) {
        None => Err(RegistryError::InvalidInstructionData),
        Some(InstructionModel::InitConfig) => init_dispatch(program_id, accounts, rent),
        Some(InstructionModel::AddValidatorProgram { name }) => validator_dispatch(
            program_id,
            accounts,
            name,
            rent,
        ),
        Some(InstructionModel::AddMarketplaceProgram) => marketplace_dispatch(
            program_id,
            accounts,
            rent,
        ),
        Some(InstructionModel::Reset) => reset_dispatch(program_id, accounts),
        Some(_) => Err(RegistryError::InvalidInstructionData),
    }
}

/// Copies of the slots from position `start` on.
pub fn copy_from(accounts: &Vec<Slot>, start: usize) -> (copies: Vec<Slot>)
    requires
        start <= accounts@.len(),
    ensures
        models(copies@) == models(accounts@).subrange(start as int, accounts@.len() as int),
{
    let mut copies: Vec<Slot> = Vec::new();
    let mut i: usize = start;
    while i < accounts.len()
        invariant
            start <= i <= accounts@.len(),
            copies@.len() == i - start,
            forall|j: int| 0 <= j < i - start ==> copies@[j]@ == accounts@[start + j]@,
        decreases accounts@.len() - i,
    {
        copies.push(accounts[i].duplicate());
        i += 1;
    }
    assert(models(copies@) =~= models(accounts@).subrange(start as int, accounts@.len() as int));
    copies
}

/// Puts `slot` in the place of the slot at position `at`.
fn put(accounts: &mut Vec<Slot>, at: usize, slot: Slot)
    requires
        at < old(accounts)@.len(),
    ensures
        final(accounts)@.len() == old(accounts)@.len(),
        models(final(accounts)@) == models(old(accounts)@).update(at as int, slot@),
{
    let ghost before = models(accounts@);
    accounts[at] = slot;
}

/// Creates the counter in the slots of an instruction.
fn run_init(program_id: &Key32, accounts: &mut Vec<Slot>, rent: InstructionRent) -> (r: Result<
    Outcome,
    RegistryError,
>)
    ensures
        match init_dispatch(program_id@, models(old(accounts)@), rent) {
            Err(e) => r == Err::<Outcome, RegistryError>(e) && models(final(accounts)@) == models(
                old(accounts)@,
            ),
            Ok((after, done)) => r == Ok::<Outcome, RegistryError>(done) && models(
                final(accounts)@,
            ) == after,
        },
{
    if accounts.len() < 2 {
        return Err(RegistryError::NotEnoughAccountKeys);
    }
    let mut payer = accounts[0].duplicate();
    let mut config = accounts[1].duplicate();
    let action = init_config(program_id, &mut payer, &mut config, rent.config)?;
    put(accounts, 0, payer);
    put(accounts, 1, config);
    Ok(Outcome::Initialized(action))
}

/// Registers a validator program in the slots of an instruction.
fn run_validator(
    program_id: &Key32,
    accounts: &mut Vec<Slot>,
    name: &str,
    rent: InstructionRent,
) -> (r: Result<Outcome, RegistryError>)
    ensures
        match validator_dispatch(program_id@, models(old(accounts)@), name@, rent) {
            Err(e) => r == Err::<Outcome, RegistryError>(e) && models(final(accounts)@) == models(
                old(accounts)@,
            ),
            Ok((after, done)) => r == Ok::<Outcome, RegistryError>(done) && models(
                final(accounts)@,
            ) == after,
        },
{
    if accounts.len() < 6 {
        return Err(RegistryError::NotEnoughAccountKeys);
    }
    let mut payer = accounts[0].duplicate();
    let mut config = accounts[1].duplicate();
    let mut team = accounts[3].duplicate();
    let mut storage = accounts[4].duplicate();
    let mut names = accounts[5].duplicate();
    let earlier = copy_from(accounts, 6);
    let ghost before = models(accounts@);
    assert(payer@ == before[0] && config@ == before[1] && team@ == before[3]);
    assert(storage@ == before[4] && names@ == before[5] && accounts@[2]@ == before[2]);
    let growth = add_permissionless_validator_program(
        program_id,
        &mut payer,
        &mut config,
        &accounts[2],
        &mut team,
        &mut storage,
        &mut names,
        &earlier,
        name,
        ValidatorRent { names: rent.names, storage: rent.storage },
    )?;
    put(accounts, 0, payer);
    put(accounts, 1, config);
    put(accounts, 3, team);
    put(accounts, 4, storage);
    put(accounts, 5, names);
    Ok(Outcome::Validator(growth))
}

/// Registers a marketplace program in the slots of an instruction.
fn run_marketplace(program_id: &Key32, accounts: &mut Vec<Slot>, rent: InstructionRent) -> (r:
    Result<Outcome, RegistryError>)
    ensures
        match marketplace_dispatch(program_id@, models(old(accounts)@), rent) {
            Err(e) => r == Err::<Outcome, RegistryError>(e) && models(final(accounts)@) == models(
                old(accounts)@,
            ),
            Ok((after, done)) => r == Ok::<Outcome, RegistryError>(done) && models(
                final(accounts)@,
            ) == after,
        },
{
    if accounts.len() < 5 {
        return Err(RegistryError::NotEnoughAccountKeys);
    }
    let mut payer = accounts[0].duplicate();
    let mut config = accounts[1].duplicate();
    let mut team = accounts[3].duplicate();
    let mut storage = accounts[4].duplicate();
    let growth = add_marketplace_program(
        program_id,
        &mut payer,
        &mut config,
        &accounts[2],
        &mut team,
        &mut storage,
        rent.storage,
    )?;
    put(accounts, 0, payer);
    put(accounts, 1, config);
    put(accounts, 3, team);
    put(accounts, 4, storage);
    Ok(Outcome::Marketplace(growth))
}

/// Resets the registry in the slots of an instruction.
fn run_reset(program_id: &Key32, accounts: &mut Vec<Slot>) -> (r: Result<Outcome, RegistryError>)
    ensures
        match reset_dispatch(program_id@, models(old(accounts)@)) {
            Err(e) => r == Err::<Outcome, RegistryError>(e) && models(final(accounts)@) == models(
                old(accounts)@,
            ),
            Ok((after, done)) => r == Ok::<Outcome, RegistryError>(done) && models(
                final(accounts)@,
            ) == after,
        },
{
    if accounts.len() < 5 {
        return Err(RegistryError::NotEnoughAccountKeys);
    }
    let mut config = accounts[1].duplicate();
    let mut storage = accounts[2].duplicate();
    let mut names = accounts[3].duplicate();
    let mut market = accounts[4].duplicate();
    let count = reset(
        program_id,
        &mut config,
        &mut storage,
        &mut names,
        &mut market,
        ResetKind::PageAligned,
    )?;
    put(accounts, 1, config);
    put(accounts, 2, storage);
    put(accounts, 3, names);
    put(accounts, 4, market);
    Ok(Outcome::Reset(count))
}

/// Processes one instruction on the slots handed in with it. The program
/// that is asked has to be the registry itself. On failure no slot changes.
pub fn process_instruction(
    program_id: &Key32,
    accounts: &mut Vec<Slot>,
    input: &[u8],
    rent: InstructionRent,
) -> (r: Result<Outcome, RegistryError>)
    requires
        program_id@ == id_bytes(),
    ensures
        match dispatch_outcome(program_id@, models(old(accounts)@), input@, rent) {
            Err(e) => r == Err::<Outcome, RegistryError>(e) && models(final(accounts)@) == models(
                old(accounts)@,
            ),
            Ok((after, done)) => r == Ok::<Outcome, RegistryError>(done) && models(
                final(accounts)@,
            ) == after,
        },
{
    let instruction = match InstructionEnum::try_decode(input) {
        Some(instruction) => instruction,
        None => {
            return Err(RegistryError::InvalidInstructionData);
        },
    };
    match instruction {
        InstructionEnum::InitConfig => run_init(program_id, accounts, rent),
        InstructionEnum::AddValidatorProgram { name } => run_validator(
            program_id,
            accounts,
            name.as_str(),
            rent,
        ),
        InstructionEnum::AddMarketplaceProgram => run_marketplace(program_id, accounts, rent),
        InstructionEnum::Reset => run_reset(program_id, accounts),
        _ => Err(RegistryError::InvalidInstructionData),
    }
}

} // verus!
