use crate::error::RegistryError;
use crate::ledger::{system_program_bytes, system_program_id};
use crate::slot::Slot;
use crate::state::constants::{id, id_bytes};
use vstd::prelude::*;

verus! {

/// What the ledger has to do so that a slot has the capacity asked for.
#[derive(Clone, Copy, Debug, PartialEq, Eq, Structural)]
pub enum CapacityAction {
    /// Create the slot with `space` bytes and `lamports` of collateral from the payer.
    Created { space: usize, lamports: u64 },
    /// Move `transfer` lamports from the payer to the slot, then resize it to `new_size`.
    Grown { transfer: u64, new_size: usize },
    /// Nothing: the slot is large enough.
    Unchanged,
}

/// `n` zero bytes.
pub open spec fn zeros(n: nat) -> Seq<u8> {
    Seq::new(n, |i: int| 0u8)
}

/// Whether a slot with this owner has not been claimed yet.
pub open spec fn is_fresh(owner: Seq<u8>) -> bool {
    owner == system_program_bytes()
}

/// The collateral that the payer owes: the whole minimum for a fresh slot, what
/// the slot lacks of the minimum where it grows, nothing where it does not grow.
pub open spec fn collateral_due(
    owner: Seq<u8>,
    size: nat,
    lamports: u64,
    new_size: nat,
    min_balance: u64,
) -> u64 {
    if is_fresh(owner) {
        min_balance
    } else if new_size > size && min_balance > lamports {
        (min_balance - lamports) as u64
    } else {
        0
    }
}

/// The bytes of the slot afterwards: zeros for a fresh slot, the old bytes
/// followed by zeros where it grows, the old bytes where it does not.
pub open spec fn data_after(owner: Seq<u8>, data: Seq<u8>, new_size: nat) -> Seq<u8> {
    if is_fresh(owner) {
        zeros(new_size)
    } else if new_size > data.len() {
        data + zeros((new_size - data.len()) as nat)
    } else {
        data
    }
}

/// Why the capacity cannot be ensured, if it cannot: a fresh slot that already
/// holds lamports or bytes, a slot of another owner, or a payer that cannot
/// pay the collateral due.
pub open spec fn capacity_error(
    owner: Seq<u8>,
    size: nat,
    lamports: u64,
    payer_lamports: u64,
    new_size: nat,
    min_balance: u64,
) -> Option<RegistryError> {
    if is_fresh(owner) && (lamports != 0 || size != 0) {
        Some(RegistryError::AlreadyInitialized)
    } else if !is_fresh(owner) && owner != id_bytes() {
        Some(RegistryError::OwnershipMismatch)
    } else if payer_lamports < collateral_due(owner, size, lamports, new_size, min_balance) {
        Some(RegistryError::InsufficientFunds)
    } else {
        None
    }
}

/// What the ledger has to do where the capacity can be ensured.
pub open spec fn capacity_action(
    owner: Seq<u8>,
    size: nat,
    lamports: u64,
    new_size: usize,
    min_balance: u64,
) -> CapacityAction {
    if is_fresh(owner) {
        CapacityAction::Created { space: new_size, lamports: min_balance }
    } else if new_size > size {
        CapacityAction::Grown {
            transfer: collateral_due(owner, size, lamports, new_size as nat, min_balance),
            new_size,
        }
    } else {
        CapacityAction::Unchanged
    }
}

/// Makes `slot` hold at least `new_size` bytes. A fresh slot is created with
/// exactly `new_size` zero bytes, owned by the registry and funded with
/// `min_balance`. A slot of the registry that is smaller is topped up to
/// `min_balance` and grown to `new_size`, its bytes kept and zeros added. A slot
/// that is large enough is left alone. `min_balance` is the least collateral of
/// a slot of `new_size` bytes. On failure nothing changes.
pub fn ensure_capacity(slot: &mut Slot, payer: &mut Slot, new_size: usize, min_balance: u64) -> (r:
    Result<CapacityAction, RegistryError>)
    ensures
        final(slot).key == old(slot).key,
        final(slot).is_signer == old(slot).is_signer,
        final(slot).executable == old(slot).executable,
        final(payer).same_but_funds(old(payer)),
        match capacity_error(
            old(slot).owner@,
            old(slot).data@.len(),
            old(slot).lamports,
            old(payer).lamports,
            new_size as nat,
            min_balance,
        ) {
            Some(e) => {
                &&& r == Err::<CapacityAction, RegistryError>(e)
                &&& final(slot).same_as(old(slot))
                &&& final(payer).lamports == old(payer).lamports
            },
            None => {
                let due = collateral_due(
                    old(slot).owner@,
                    old(slot).data@.len(),
                    old(slot).lamports,
                    new_size as nat,
                    min_balance,
                );
                &&& r == Ok::<CapacityAction, RegistryError>(
                    capacity_action(
                        old(slot).owner@,
                        old(slot).data@.len(),
                        old(slot).lamports,
                        new_size,
                        min_balance,
                    ),
                )
                &&& final(slot).owner@ == id_bytes()
                &&& final(slot).data@ == data_after(old(slot).owner@, old(slot).data@, new_size as nat)
                &&& final(slot).lamports == old(slot).lamports + due
                &&& final(payer).lamports == old(payer).lamports - due
            },
        },
{
    let system = system_program_id();
    let registry = id();
    if slot.owner.same(&system) {
        if slot.lamports != 0 || slot.data.len() != 0 {
            return Err(RegistryError::AlreadyInitialized);
        }
        if payer.lamports < min_balance {
            return Err(RegistryError::InsufficientFunds);
        }
        payer.lamports = payer.lamports - min_balance;
        slot.lamports = min_balance;
        slot.owner = registry;
        slot.data.resize(new_size, 0u8);
        assert(slot.data@ =~= zeros(new_size as nat));
        return Ok(CapacityAction::Created { space: new_size, lamports: min_balance });
    }
    if !slot.owner.same(&registry) {
        return Err(RegistryError::OwnershipMismatch);
    }
    if new_size <= slot.data.len() {
        return Ok(CapacityAction::Unchanged);
    }
    let transfer: u64 = if min_balance > slot.lamports {
        min_balance - slot.lamports
    } else {
        0
    };
    if payer.lamports < transfer {
        return Err(RegistryError::InsufficientFunds);
    }
    payer.lamports = payer.lamports - transfer;
    slot.lamports = slot.lamports + transfer;
    let ghost before = slot.data@;
    slot.data.resize(new_size, 0u8);
    assert(slot.data@ =~= before + zeros((new_size - before.len()) as nat));
    Ok(CapacityAction::Grown { transfer, new_size })
}

/// Growing a slot of the registry to `first` bytes and then to more, `second`,
/// leaves it with exactly `second` bytes where it had no more than that to
/// begin with, and keeps every byte it had after the first growth.
pub proof fn law_monotonic_growth(owner: Seq<u8>, data: Seq<u8>, first: nat, second: nat)
    requires
        first < second,
        is_fresh(owner) || data.len() <= second,
    ensures
        data_after(owner, data, first).len() >= first,
        data_after(id_bytes(), data_after(owner, data, first), second).len() == second,
        data_after(id_bytes(), data_after(owner, data, first), second).subrange(
            0,
            data_after(owner, data, first).len() as int,
        ) == data_after(owner, data, first),
{
    let mid = data_after(owner, data, first);
    let end = data_after(id_bytes(), mid, second);
    assert(id_bytes()[0] != system_program_bytes()[0]);
    assert(!is_fresh(id_bytes()));
    assert(end.subrange(0, mid.len() as int) =~= mid);
}

} // verus!
