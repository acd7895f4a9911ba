use crate::add_program::{validator_outcome, ValidatorRent, ValidatorSlots};
use crate::allocator::is_fresh;
use crate::codec::count_of;
use crate::error::RegistryError;
use crate::laws::{law_validator_effect, lemma_registry_is_not_fresh};
use crate::page::{entries_of, page_size};
use crate::pager::{law_page_decomposition, page_index_spec};
use crate::record::decode_outcome;
use crate::slot::SlotModel;
use crate::state::constants::{
    CONFIG_VALIDATION_PHASE, PAGE_CAPACITY_NAMES, PAGE_CAPACITY_PROGRAMS, STORAGE_VALIDATION_PHASE,
};
use vstd::prelude::*;

verus! {

/// The slots of a registry: payer, counter and treasury, and the slots of the
/// program pages and of the name pages, each at the position of its page index.
pub struct RegistryModel {
    pub payer: SlotModel,
    pub config: SlotModel,
    pub team: SlotModel,
    pub pages: Seq<SlotModel>,
    pub name_pages: Seq<SlotModel>,
}

/// The registry after the unit `unit` was registered under the raw name `raw`,
/// the pages handed in being the program page and the name page that the
/// counter falls into and the name pages before it; or the first failure met.
pub open spec fn registered(
    program_id: Seq<u8>,
    state: RegistryModel,
    unit: SlotModel,
    raw: Seq<char>,
    rent: ValidatorRent,
) -> Result<RegistryModel, RegistryError> {
    let count = count_of(state.config.data);
    let page = page_index_spec(count as int, PAGE_CAPACITY_PROGRAMS as int);
    let name_page = page_index_spec(count as int, PAGE_CAPACITY_NAMES as int);
    if page >= state.pages.len() || name_page >= state.name_pages.len() {
        Err(RegistryError::NotEnoughAccountKeys)
    } else {
        match validator_outcome(
            program_id,
            unit,
            ValidatorSlots {
                payer: state.payer,
                config: state.config,
                team: state.team,
                storage: state.pages[page],
                name_storage: state.name_pages[name_page],
            },
            state.name_pages.subrange(0, name_page),
            raw,
            rent,
        ) {
            Err(e) => Err(e),
            Ok((after, _)) => Ok(
                RegistryModel {
                    payer: after.payer,
                    config: after.config,
                    team: after.team,
                    pages: state.pages.update(page, after.storage),
                    name_pages: state.name_pages.update(name_page, after.name_storage),
                },
            ),
        }
    }
}

/// The registry after the units of `units` were registered one after the
/// other, unit `i` under the name `names[i]` with the rent `rents[i]`; or the
/// first failure met.
pub open spec fn registered_all(
    program_id: Seq<u8>,
    state: RegistryModel,
    units: Seq<SlotModel>,
    names: Seq<Seq<char>>,
    rents: Seq<ValidatorRent>,
) -> Result<RegistryModel, RegistryError>
    decreases units.len(),
{
    if units.len() == 0 {
        Ok(state)
    } else {
        match registered_all(program_id, state, units.drop_last(), names, rents) {
            Err(e) => Err(e),
            Ok(before) => registered(
                program_id,
                before,
                units.last(),
                names[units.len() - 1],
                rents[units.len() - 1],
            ),
        }
    }
}

/// The keys of a sequence of units, in their order.
pub open spec fn keys_of(units: Seq<SlotModel>) -> Seq<Seq<u8>> {
    units.map_values(|unit: SlotModel| unit.key)
}

/// Number of the keys `keys` that fall into the program page of index `index`.
pub open spec fn share(keys: Seq<Seq<u8>>, index: int) -> int {
    let first = PAGE_CAPACITY_PROGRAMS * index;
    if keys.len() <= first {
        0
    } else if keys.len() - first < PAGE_CAPACITY_PROGRAMS {
        keys.len() - first
    } else {
        PAGE_CAPACITY_PROGRAMS as int
    }
}

/// Whether the slot of the program page of index `index` holds its share of
/// the keys `keys`: a page that no key falls into is still fresh, and any other
/// belongs to the registry and holds exactly the keys that fall into it, in
/// their order, in a buffer of exactly their size.
pub open spec fn page_holds(page: SlotModel, index: int, keys: Seq<Seq<u8>>) -> bool {
    let first = PAGE_CAPACITY_PROGRAMS * index;
    let held = share(keys, index);
    if held == 0 {
        is_fresh(page.owner)
    } else {
        &&& decode_outcome(page.owner, page.data, STORAGE_VALIDATION_PHASE) == Ok::<
            u32,
            RegistryError,
        >(held as u32)
        &&& page.data.len() == page_size(32, held)
        &&& entries_of(page.data, 32, held as nat) == keys.subrange(first, first + held)
    }
}

/// Whether counter and program pages agree with the keys `keys` registered so
/// far: the counter reads their number, and every program page holds its share.
pub open spec fn coherent(state: RegistryModel, keys: Seq<Seq<u8>>) -> bool {
    &&& decode_outcome(state.config.owner, state.config.data, CONFIG_VALIDATION_PHASE) == Ok::<
        u32,
        RegistryError,
    >(keys.len() as u32)
    &&& keys.len() <= u32::MAX
    &&& forall|j: int| 0 <= j < state.pages.len() ==> page_holds(#[trigger] state.pages[j], j, keys)
}

/// A successful registration keeps counter and pages coherent: afterwards they
/// agree with the keys registered before followed by the key of the unit, and
/// no page slot was added or taken away.
pub proof fn law_registration_keeps_coherence(
    program_id: Seq<u8>,
    state: RegistryModel,
    keys: Seq<Seq<u8>>,
    unit: SlotModel,
    raw: Seq<char>,
    rent: ValidatorRent,
)
    requires
        unit.key.len() == 32,
        coherent(state, keys),
        registered(program_id, state, unit, raw, rent) is Ok,
    ensures
        coherent(registered(program_id, state, unit, raw, rent)->Ok_0, keys.push(unit.key)),
        registered(program_id, state, unit, raw, rent)->Ok_0.pages.len() == state.pages.len(),
{
    let after = registered(program_id, state, unit, raw, rent)->Ok_0;
    let more = keys.push(unit.key);
    let count = keys.len() as int;
    let capacity = PAGE_CAPACITY_PROGRAMS as int;
    let page = page_index_spec(count, capacity);
    let name_page = page_index_spec(count, PAGE_CAPACITY_NAMES as int);
    assert(count_of(state.config.data) == count);
    law_page_decomposition(count, capacity);
    lemma_registry_is_not_fresh();
    let slots = ValidatorSlots {
        payer: state.payer,
        config: state.config,
        team: state.team,
        storage: state.pages[page],
        name_storage: state.name_pages[name_page],
    };
    law_validator_effect(
        program_id,
        unit,
        slots,
        state.name_pages.subrange(0, name_page),
        raw,
        rent,
    );
    let held = share(keys, page);
    assert(page_holds(state.pages[page], page, keys));
    assert(held == count - capacity * page);
    assert(share(more, page) == held + 1);
    assert forall|j: int| 0 <= j < after.pages.len() implies page_holds(
        #[trigger] after.pages[j],
        j,
        more,
    ) by {
        assert(page_holds(state.pages[j], j, keys));
        if j == page {
            let first = capacity * page;
            assert(more.subrange(first, first + held + 1) =~= keys.subrange(
                first,
                first + held,
            ).push(unit.key));
            if held == 0 {
                assert(entries_of(state.pages[page].data, 32, 0) =~= keys.subrange(first, first));
            }
        } else if j < page {
            let first = capacity * j;
            assert(capacity * (j + 1) <= capacity * page) by (nonlinear_arith)
                requires
                    j + 1 <= page,
                    capacity > 0,
            ;
            assert(share(more, j) == capacity && share(keys, j) == capacity);
            assert(more.subrange(first, first + capacity) =~= keys.subrange(
                first,
                first + capacity,
            ));
        } else {
            assert(capacity * j >= capacity * (page + 1)) by (nonlinear_arith)
                requires
                    j >= page + 1,
                    capacity > 0,
            ;
            assert(share(more, j) == 0 && share(keys, j) == 0);
        }
    }
}

/// A run of successful registrations keeps counter and pages coherent: from a
/// registry that agrees with the keys `keys`, registering the units of `units`
/// one after the other leaves a registry that agrees with `keys` followed by
/// the units' keys, with the page slots it had.
pub proof fn law_run_keeps_coherence(
    program_id: Seq<u8>,
    state: RegistryModel,
    keys: Seq<Seq<u8>>,
    units: Seq<SlotModel>,
    names: Seq<Seq<char>>,
    rents: Seq<ValidatorRent>,
)
    requires
        coherent(state, keys),
        forall|i: int| 0 <= i < units.len() ==> (#[trigger] units[i]).key.len() == 32,
        registered_all(program_id, state, units, names, rents) is Ok,
    ensures
        coherent(
            registered_all(program_id, state, units, names, rents)->Ok_0,
            keys + keys_of(units),
        ),
        registered_all(program_id, state, units, names, rents)->Ok_0.pages.len()
            == state.pages.len(),
    decreases units.len(),
{
    if units.len() == 0 {
        assert(keys + keys_of(units) =~= keys);
    } else {
        let earlier = units.drop_last();
        law_run_keeps_coherence(program_id, state, keys, earlier, names, rents);
        let before = registered_all(program_id, state, earlier, names, rents)->Ok_0;
        law_registration_keeps_coherence(
            program_id,
            before,
            keys + keys_of(earlier),
            units.last(),
            names[units.len() - 1],
            rents[units.len() - 1],
        );
        assert(keys + keys_of(units) =~= (keys + keys_of(earlier)).push(units.last().key));
    }
}

/// After 626 successful registrations in a registry that was empty, the
/// counter reads 626, the first program page holds the first 625 keys in the
/// order of their registration, the second page holds the last key alone, and
/// every further page slot is still fresh.
pub proof fn law_second_page_after_a_full_one(
    program_id: Seq<u8>,
    state: RegistryModel,
    units: Seq<SlotModel>,
    names: Seq<Seq<char>>,
    rents: Seq<ValidatorRent>,
)
    requires
        coherent(state, Seq::empty()),
        units.len() == 626,
        forall|i: int| 0 <= i < units.len() ==> (#[trigger] units[i]).key.len() == 32,
        registered_all(program_id, state, units, names, rents) is Ok,
    ensures
        ({
            let end = registered_all(program_id, state, units, names, rents)->Ok_0;
            let keys = keys_of(units);
            &&& end.pages.len() == state.pages.len()
            &&& end.pages.len() >= 2
            &&& decode_outcome(end.config.owner, end.config.data, CONFIG_VALIDATION_PHASE) == Ok::<
                u32,
                RegistryError,
            >(626)
            &&& decode_outcome(end.pages[0].owner, end.pages[0].data, STORAGE_VALIDATION_PHASE)
                == Ok::<u32, RegistryError>(625)
            &&& entries_of(end.pages[0].data, 32, 625) == keys.subrange(0, 625)
            &&& decode_outcome(end.pages[1].owner, end.pages[1].data, STORAGE_VALIDATION_PHASE)
                == Ok::<u32, RegistryError>(1)
            &&& entries_of(end.pages[1].data, 32, 1) == seq![units[625].key]
            &&& forall|j: int| 2 <= j < end.pages.len() ==> is_fresh((#[trigger] end.pages[j]).owner)
        }),
{
    let end = registered_all(program_id, state, units, names, rents)->Ok_0;
    let keys = keys_of(units);
    let earlier = units.drop_last();
    law_run_keeps_coherence(program_id, state, Seq::empty(), units, names, rents);
    assert(Seq::<Seq<u8>>::empty() + keys =~= keys);
    // the last step wrote the page of index 1, so there is such a page slot
    law_run_keeps_coherence(program_id, state, Seq::empty(), earlier, names, rents);
    assert(Seq::<Seq<u8>>::empty() + keys_of(earlier) =~= keys_of(earlier));
    let before = registered_all(program_id, state, earlier, names, rents)->Ok_0;
    assert(count_of(before.config.data) == 625);
    assert(page_index_spec(625, PAGE_CAPACITY_PROGRAMS as int) == 1);
    assert(before.pages.len() >= 2);
    assert(page_holds(end.pages[0], 0, keys));
    assert(page_holds(end.pages[1], 1, keys));
    assert(keys.subrange(625, 626) =~= seq![units[625].key]);
    assert forall|j: int| 2 <= j < end.pages.len() implies is_fresh(
        (#[trigger] end.pages[j]).owner,
    ) by {
        assert(page_holds(end.pages[j], j, keys));
    }
}

} // verus!
