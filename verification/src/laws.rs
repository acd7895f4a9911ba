use crate::add_program::{
    admission, grown, marketplace_outcome, named, opened, ready, sits_at, stored,
    validator_outcome, MarketplaceSlots, RentQuote, ValidatorRent, ValidatorSlots,
};
use crate::allocator::{data_after, is_fresh, zeros};
use crate::codec::{count_of, header_spec, lemma_header_round_trip};
use crate::error::RegistryError;
use crate::ledger::{
    marketplace_storage_seed_spec, name_storage_seed_spec, page_seeds_spec, storage_seed_spec,
    system_program_bytes,
};
use crate::name::{fixed_name, normalize_spec, stored_name_spec};
use crate::page::{
    entries_of, lemma_append_entries, lemma_entry_within, lemma_overwrite_spans, overwrite,
    page_size, span,
};
use crate::pager::{law_reset_floor, page_index_spec, page_offset_spec};
use crate::record::{append_outcome, decode_outcome, lemma_decode_of_encode};
use crate::reset::{page_reset, reset_count, reset_outcome, ResetKind, ResetSlots};
use crate::slot::SlotModel;
use crate::state::constants::{
    id_bytes, CONFIG_VALIDATION_PHASE, MARKETPLACE_STORAGE_VALIDATION_PHRASE,
    NAME_STORAGE_VALIDATION_PHRASE, PAGE_CAPACITY_NAMES, PAGE_CAPACITY_PROGRAMS,
    PROGRAM_DEPLOYMENT_PAYBACK, STORAGE_VALIDATION_PHASE,
};
use crate::state::{page_names, scan_names, NameStorage};
use crate::utils::derived_address;
use vstd::prelude::*;

verus! {

/// The count that a page holds before an entry is added: none for a slot that
/// is still fresh, else the count in its header.
pub open spec fn held_before(page: SlotModel) -> u32 {
    if is_fresh(page.owner) {
        0
    } else {
        count_of(page.data)
    }
}

/// The registry's own address is not the address that marks a fresh slot.
pub proof fn lemma_registry_is_not_fresh()
    ensures
        !is_fresh(id_bytes()),
{
    assert(id_bytes()[0] != system_program_bytes()[0]);
}

/// Writing a header over the first eight bytes of a page leaves its entries as
/// they were.
pub proof fn lemma_header_keeps_entries(data: Seq<u8>, header: Seq<u8>, width: int, count: int)
    requires
        0 <= width,
        0 <= count,
        header.len() == 8,
        page_size(width, count) <= data.len(),
    ensures
        entries_of(overwrite(data, 0, header), width, count as nat) == entries_of(
            data,
            width,
            count as nat,
        ),
{
    assert(width * count >= 0) by (nonlinear_arith)
        requires
            0 <= width,
            0 <= count,
    ;
    lemma_overwrite_spans(data, 0, header);
    let out = overwrite(data, 0, header);
    let before = entries_of(data, width, count as nat);
    let after = entries_of(out, width, count as nat);
    assert forall|i: int| 0 <= i < count implies after[i] == before[i] by {
        lemma_entry_within(width, i, count);
        assert(span(out, page_size(width, i), width) == span(data, page_size(width, i), width));
    }
    assert(after =~= before);
}

/// Adding zeros behind a page leaves its entries as they were.
pub proof fn lemma_growth_keeps_entries(data: Seq<u8>, more: nat, width: int, count: int)
    requires
        0 <= width,
        0 <= count,
        page_size(width, count) <= data.len(),
    ensures
        entries_of(data + zeros(more), width, count as nat) == entries_of(
            data,
            width,
            count as nat,
        ),
{
    let out = data + zeros(more);
    let before = entries_of(data, width, count as nat);
    let after = entries_of(out, width, count as nat);
    assert forall|i: int| 0 <= i < count implies after[i] == before[i] by {
        lemma_entry_within(width, i, count);
        assert(span(out, page_size(width, i), width) =~= span(data, page_size(width, i), width));
    }
    assert(after =~= before);
}

/// Where a page is made ready and a value stored in it, the page afterwards
/// belongs to the registry, has exactly the size of its entries, reads back
/// with one entry more than before, and holds the entries it held followed by
/// the value, which it did not hold before. What the payer lost, the page gained.
pub proof fn law_stored_page(
    page: SlotModel,
    payer_lamports: u64,
    tag: u32,
    width: int,
    capacity: u32,
    rent: RentQuote,
    value: Seq<u8>,
    duplicate: RegistryError,
)
    requires
        0 < width,
        value.len() == width,
        ready(page, payer_lamports, tag, width, capacity, rent) is Ok,
        stored(
            ready(page, payer_lamports, tag, width, capacity, rent)->Ok_0.0,
            tag,
            width,
            ready(page, payer_lamports, tag, width, capacity, rent)->Ok_0.2,
            capacity,
            value,
            duplicate,
        ) is Ok,
    ensures
        ({
            let prepared = ready(page, payer_lamports, tag, width, capacity, rent)->Ok_0;
            let held = prepared.2;
            let after = stored(prepared.0, tag, width, held, capacity, value, duplicate)->Ok_0;
            &&& held == held_before(page)
            &&& held < capacity
            &&& after.key == page.key
            &&& after.owner == id_bytes()
            &&& after.data.len() == page_size(width, held + 1)
            &&& decode_outcome(after.owner, after.data, tag) == Ok::<u32, RegistryError>(
                (held + 1) as u32,
            )
            &&& entries_of(after.data, width, (held + 1) as nat) == entries_of(
                page.data,
                width,
                held as nat,
            ).push(value)
            &&& !entries_of(page.data, width, held as nat).contains(value)
            &&& after.lamports + prepared.1 == page.lamports + payer_lamports
        }),
{
    lemma_registry_is_not_fresh();
    let first = opened(page, payer_lamports, tag, rent.init)->Ok_0;
    let prepared = ready(page, payer_lamports, tag, width, capacity, rent)->Ok_0;
    let held = prepared.2;
    let after = stored(prepared.0, tag, width, held, capacity, value, duplicate)->Ok_0;
    if is_fresh(page.owner) {
        lemma_header_round_trip(tag, 0, Seq::empty());
        assert(header_spec(tag, 0) + Seq::<u8>::empty() =~= header_spec(tag, 0));
    }
    assert(grown(first.0, first.1, tag, width, capacity, rent.grown) is Ok);
    assert(held == held_before(page));
    lemma_entry_within(width, held as int, held + 1);
    let start = first.0.data;
    let room = data_after(first.0.owner, start, page_size(width, held + 1) as nat);
    assert(room == start + zeros(width as nat));
    lemma_growth_keeps_entries(start, width as nat, width, held as int);
    let written = append_outcome(room, width, held, capacity, value, duplicate)->Ok_0;
    lemma_append_entries(room, width, held as int, value);
    lemma_overwrite_spans(room, page_size(width, held as int), value);
    lemma_header_round_trip(tag, (held + 1) as u32, Seq::empty());
    lemma_header_keeps_entries(written, header_spec(tag, (held + 1) as u32), width, held + 1);
    lemma_decode_of_encode(first.0.owner, written, tag, (held + 1) as u32, width);
    assert(entries_of(start, width, held as nat) =~= entries_of(page.data, width, held as nat));
}

/// Where the scan of a list of name pages finds nothing, every page from
/// `from` on can be read and none of them holds the name.
pub proof fn law_scan_finds_every_name(pages: Seq<SlotModel>, from: int, name: Seq<u8>)
    requires
        0 <= from,
        scan_names(pages, from, name) == Ok::<bool, RegistryError>(false),
    ensures
        forall|i: int|
            from <= i < pages.len() ==> (#[trigger] page_names(pages[i])) is Ok && !page_names(
                pages[i],
            )->Ok_0.contains(name),
    decreases pages.len() - from,
{
    if from < pages.len() {
        law_scan_finds_every_name(pages, from + 1, name);
    }
}

/// A name that this page or an earlier page holds already cannot be added
/// again, under whatever spelling normalizes to it: where the page is not
/// full, holds the names that it counts and the earlier pages can be read, the
/// attempt fails with `DuplicateName`, whatever room the buffer has.
pub proof fn law_duplicate_name(
    record: NameStorage,
    data: Seq<u8>,
    earlier: Seq<SlotModel>,
    first: Seq<char>,
    second: Seq<char>,
)
    requires
        normalize_spec(first) == normalize_spec(second),
        stored_name_spec(first) is Ok,
        record.num_names < PAGE_CAPACITY_NAMES,
        data.len() >= page_size(12, record.num_names as int),
        scan_names(earlier, 0, stored_name_spec(first)->Ok_0) is Ok,
        scan_names(earlier, 0, stored_name_spec(first)->Ok_0) == Ok::<bool, RegistryError>(true)
            || record.names(data).contains(stored_name_spec(first)->Ok_0),
    ensures
        record.add_name_outcome(data, second, earlier) == Err::<Seq<u8>, RegistryError>(
            RegistryError::DuplicateName,
        ),
{
}

/// A name added to a page cannot be added to that page again, under whatever
/// spelling normalizes to it, before the page is given more room: the second
/// attempt fails with `DuplicateName`.
pub proof fn law_second_spelling_is_duplicate(
    record: NameStorage,
    data: Seq<u8>,
    earlier: Seq<SlotModel>,
    first: Seq<char>,
    second: Seq<char>,
)
    requires
        normalize_spec(first) == normalize_spec(second),
        record.add_name_outcome(data, first, earlier) is Ok,
        record.num_names + 1 < PAGE_CAPACITY_NAMES,
    ensures
        (NameStorage { num_names: (record.num_names + 1) as u32, ..record }).add_name_outcome(
            record.add_name_outcome(data, first, earlier)->Ok_0,
            second,
            earlier,
        ) == Err::<Seq<u8>, RegistryError>(RegistryError::DuplicateName),
{
    let bytes = stored_name_spec(first)->Ok_0;
    let after = record.add_name_outcome(data, first, earlier)->Ok_0;
    assert(bytes.len() == 12);
    lemma_append_entries(data, 12, record.num_names as int, bytes);
    let names = entries_of(after, 12, (record.num_names + 1) as nat);
    assert(names[record.num_names as int] == bytes);
    assert(names.contains(bytes));
}

/// Where a name page is made ready and a raw name stored in it, the name can
/// be stored, no earlier page holds its stored bytes, and the page afterwards
/// belongs to the registry, has exactly the size of its names, reads back with
/// one name more and holds the names it held followed by the stored bytes.
pub proof fn law_named_page(
    page: SlotModel,
    payer_lamports: u64,
    rent: RentQuote,
    raw: Seq<char>,
    earlier: Seq<SlotModel>,
)
    requires
        ready(
            page,
            payer_lamports,
            NAME_STORAGE_VALIDATION_PHRASE,
            12,
            PAGE_CAPACITY_NAMES,
            rent,
        ) is Ok,
        named(
            ready(
                page,
                payer_lamports,
                NAME_STORAGE_VALIDATION_PHRASE,
                12,
                PAGE_CAPACITY_NAMES,
                rent,
            )->Ok_0.0,
            ready(
                page,
                payer_lamports,
                NAME_STORAGE_VALIDATION_PHRASE,
                12,
                PAGE_CAPACITY_NAMES,
                rent,
            )->Ok_0.2,
            raw,
            earlier,
        ) is Ok,
    ensures
        ({
            let prepared = ready(
                page,
                payer_lamports,
                NAME_STORAGE_VALIDATION_PHRASE,
                12,
                PAGE_CAPACITY_NAMES,
                rent,
            )->Ok_0;
            let held = prepared.2;
            let after = named(prepared.0, held, raw, earlier)->Ok_0;
            let bytes = fixed_name(normalize_spec(raw));
            &&& stored_name_spec(raw) == Ok::<Seq<u8>, RegistryError>(bytes)
            &&& scan_names(earlier, 0, bytes) == Ok::<bool, RegistryError>(false)
            &&& held == held_before(page)
            &&& held < PAGE_CAPACITY_NAMES
            &&& after.key == page.key
            &&& after.owner == id_bytes()
            &&& after.data.len() == page_size(12, held + 1)
            &&& decode_outcome(after.owner, after.data, NAME_STORAGE_VALIDATION_PHRASE) == Ok::<
                u32,
                RegistryError,
            >((held + 1) as u32)
            &&& entries_of(after.data, 12, (held + 1) as nat) == entries_of(
                page.data,
                12,
                held as nat,
            ).push(bytes)
            &&& !entries_of(page.data, 12, held as nat).contains(bytes)
            &&& after.lamports + prepared.1 == page.lamports + payer_lamports
        }),
{
    let prepared = ready(
        page,
        payer_lamports,
        NAME_STORAGE_VALIDATION_PHRASE,
        12,
        PAGE_CAPACITY_NAMES,
        rent,
    )->Ok_0;
    let bytes = fixed_name(normalize_spec(raw));
    assert(bytes.len() == 12);
    assert(named(prepared.0, prepared.2, raw, earlier) == stored(
        prepared.0,
        NAME_STORAGE_VALIDATION_PHRASE,
        12,
        prepared.2,
        PAGE_CAPACITY_NAMES,
        bytes,
        RegistryError::DuplicateName,
    ));
    law_stored_page(
        page,
        payer_lamports,
        NAME_STORAGE_VALIDATION_PHRASE,
        12,
        PAGE_CAPACITY_NAMES,
        rent,
        bytes,
        RegistryError::DuplicateName,
    );
}

/// Where a marketplace registration succeeds: the counter reads one more than
/// before; the page written is the marketplace page that the old count falls
/// into, and afterwards it holds the keys it held followed by the unit's key,
/// in a buffer of exactly their size; the treasury holds the fee more; and what
/// the payer lost is the fee and what the page gained.
pub proof fn law_marketplace_effect(
    program_id: Seq<u8>,
    unit: SlotModel,
    slots: MarketplaceSlots,
    rent: RentQuote,
)
    requires
        unit.key.len() == 32,
        marketplace_outcome(program_id, unit, slots, rent) is Ok,
    ensures
        ({
            let after = marketplace_outcome(program_id, unit, slots, rent)->Ok_0.0;
            let growth = marketplace_outcome(program_id, unit, slots, rent)->Ok_0.1;
            let count = count_of(slots.config.data);
            let held = held_before(slots.storage);
            &&& admission(program_id, unit, slots.team, slots.config) == Ok::<u32, RegistryError>(
                count,
            )
            &&& decode_outcome(after.config.owner, after.config.data, CONFIG_VALIDATION_PHASE)
                == Ok::<u32, RegistryError>((count + 1) as u32)
            &&& sits_at(
                slots.storage.key,
                derived_address(
                    page_seeds_spec(
                        marketplace_storage_seed_spec(),
                        page_index_spec(count as int, PAGE_CAPACITY_PROGRAMS as int) as u32,
                    ),
                    program_id,
                ),
            )
            &&& decode_outcome(
                after.storage.owner,
                after.storage.data,
                MARKETPLACE_STORAGE_VALIDATION_PHRASE,
            ) == Ok::<u32, RegistryError>((held + 1) as u32)
            &&& after.storage.data.len() == page_size(32, held + 1)
            &&& entries_of(after.storage.data, 32, (held + 1) as nat) == entries_of(
                slots.storage.data,
                32,
                held as nat,
            ).push(unit.key)
            &&& after.team.lamports == slots.team.lamports + PROGRAM_DEPLOYMENT_PAYBACK
            &&& after.payer.lamports + after.storage.lamports + PROGRAM_DEPLOYMENT_PAYBACK
                == slots.payer.lamports + slots.storage.lamports
            &&& growth.created == is_fresh(slots.storage.owner)
            &&& growth.new_size == page_size(32, held + 1)
        }),
{
    reveal(marketplace_outcome);
    let count = admission(program_id, unit, slots.team, slots.config)->Ok_0;
    law_stored_page(
        slots.storage,
        slots.payer.lamports,
        MARKETPLACE_STORAGE_VALIDATION_PHRASE,
        32,
        PAGE_CAPACITY_PROGRAMS,
        rent,
        unit.key,
        RegistryError::DuplicateEntry,
    );
    lemma_decode_of_encode(
        slots.config.owner,
        slots.config.data,
        CONFIG_VALIDATION_PHASE,
        (count + 1) as u32,
        0,
    );
}

/// Where the registration of a validator program succeeds: the counter reads
/// one more than before; the pages written are the program page and the name
/// page that the old count falls into; the program page afterwards holds the
/// keys it held followed by the unit's key, the name page the names it held
/// followed by the stored form of the name, each in a buffer of exactly the
/// size of its entries; no earlier name page holds that stored form; the
/// treasury holds the fee more; and what the payer lost is the fee and what
/// the two pages gained.
pub proof fn law_validator_effect(
    program_id: Seq<u8>,
    unit: SlotModel,
    slots: ValidatorSlots,
    earlier: Seq<SlotModel>,
    raw: Seq<char>,
    rent: ValidatorRent,
)
    requires
        unit.key.len() == 32,
        validator_outcome(program_id, unit, slots, earlier, raw, rent) is Ok,
    ensures
        ({
            let after = validator_outcome(program_id, unit, slots, earlier, raw, rent)->Ok_0.0;
            let growth = validator_outcome(program_id, unit, slots, earlier, raw, rent)->Ok_0.1;
            let count = count_of(slots.config.data);
            let held = held_before(slots.storage);
            let held_names = held_before(slots.name_storage);
            let bytes = fixed_name(normalize_spec(raw));
            &&& admission(program_id, unit, slots.team, slots.config) == Ok::<u32, RegistryError>(
                count,
            )
            &&& decode_outcome(after.config.owner, after.config.data, CONFIG_VALIDATION_PHASE)
                == Ok::<u32, RegistryError>((count + 1) as u32)
            &&& sits_at(
                slots.storage.key,
                derived_address(
                    page_seeds_spec(
                        storage_seed_spec(),
                        page_index_spec(count as int, PAGE_CAPACITY_PROGRAMS as int) as u32,
                    ),
                    program_id,
                ),
            )
            &&& sits_at(
                slots.name_storage.key,
                derived_address(
                    page_seeds_spec(
                        name_storage_seed_spec(),
                        page_index_spec(count as int, PAGE_CAPACITY_NAMES as int) as u32,
                    ),
                    program_id,
                ),
            )
            &&& earlier.len() == page_index_spec(count as int, PAGE_CAPACITY_NAMES as int)
            &&& decode_outcome(after.storage.owner, after.storage.data, STORAGE_VALIDATION_PHASE)
                == Ok::<u32, RegistryError>((held + 1) as u32)
            &&& after.storage.data.len() == page_size(32, held + 1)
            &&& entries_of(after.storage.data, 32, (held + 1) as nat) == entries_of(
                slots.storage.data,
                32,
                held as nat,
            ).push(unit.key)
            &&& stored_name_spec(raw) == Ok::<Seq<u8>, RegistryError>(bytes)
            &&& scan_names(earlier, 0, bytes) == Ok::<bool, RegistryError>(false)
            &&& decode_outcome(
                after.name_storage.owner,
                after.name_storage.data,
                NAME_STORAGE_VALIDATION_PHRASE,
            ) == Ok::<u32, RegistryError>((held_names + 1) as u32)
            &&& after.name_storage.data.len() == page_size(12, held_names + 1)
            &&& entries_of(after.name_storage.data, 12, (held_names + 1) as nat) == entries_of(
                slots.name_storage.data,
                12,
                held_names as nat,
            ).push(bytes)
            &&& !entries_of(slots.name_storage.data, 12, held_names as nat).contains(bytes)
            &&& after.team.lamports == slots.team.lamports + PROGRAM_DEPLOYMENT_PAYBACK
            &&& after.payer.lamports + after.storage.lamports + after.name_storage.lamports
                + PROGRAM_DEPLOYMENT_PAYBACK == slots.payer.lamports + slots.storage.lamports
                + slots.name_storage.lamports
            &&& growth.storage.new_size == page_size(32, held + 1)
            &&& growth.names.new_size == page_size(12, held_names + 1)
        }),
{
    reveal(validator_outcome);
    let count = admission(program_id, unit, slots.team, slots.config)->Ok_0;
    let names = ready(
        slots.name_storage,
        slots.payer.lamports,
        NAME_STORAGE_VALIDATION_PHRASE,
        12,
        PAGE_CAPACITY_NAMES,
        rent.names,
    )->Ok_0;
    law_named_page(slots.name_storage, slots.payer.lamports, rent.names, raw, earlier);
    law_stored_page(
        slots.storage,
        names.1,
        STORAGE_VALIDATION_PHASE,
        32,
        PAGE_CAPACITY_PROGRAMS,
        rent.storage,
        unit.key,
        RegistryError::DuplicateEntry,
    );
    lemma_decode_of_encode(
        slots.config.owner,
        slots.config.data,
        CONFIG_VALIDATION_PHASE,
        (count + 1) as u32,
        0,
    );
}

/// Where a reset succeeds: the counter reads the count that the reset leaves,
/// which is zero for a full reset and else the first entry of the page that
/// the old count falls into; and every page handed in that the registry owns
/// reads back as an empty page of eight bytes, while a fresh slot stays fresh.
pub proof fn law_reset_effect(program_id: Seq<u8>, slots: ResetSlots, kind: ResetKind)
    requires
        reset_outcome(program_id, slots, kind) is Ok,
    ensures
        ({
            let after = reset_outcome(program_id, slots, kind)->Ok_0.0;
            let left = reset_outcome(program_id, slots, kind)->Ok_0.1;
            let count = count_of(slots.config.data);
            &&& left == reset_count(kind, count)
            &&& left <= count
            &&& page_offset_spec(left as int, PAGE_CAPACITY_PROGRAMS as int) == 0
            &&& kind == ResetKind::PageAligned ==> page_index_spec(
                left as int,
                PAGE_CAPACITY_PROGRAMS as int,
            ) == page_index_spec(count as int, PAGE_CAPACITY_PROGRAMS as int)
            &&& decode_outcome(after.config.owner, after.config.data, CONFIG_VALIDATION_PHASE)
                == Ok::<u32, RegistryError>(left)
            &&& after.storage == page_reset(slots.storage, STORAGE_VALIDATION_PHASE)->Ok_0
            &&& after.name_storage == page_reset(
                slots.name_storage,
                NAME_STORAGE_VALIDATION_PHRASE,
            )->Ok_0
            &&& after.marketplace_storage == page_reset(
                slots.marketplace_storage,
                MARKETPLACE_STORAGE_VALIDATION_PHRASE,
            )->Ok_0
        }),
{
    reveal(reset_outcome);
    let count = count_of(slots.config.data);
    law_reset_floor(count as int, PAGE_CAPACITY_PROGRAMS as int);
    lemma_decode_of_encode(
        slots.config.owner,
        slots.config.data,
        CONFIG_VALIDATION_PHASE,
        reset_count(kind, count),
        0,
    );
}

/// A page that was emptied by a reset reads back as an empty page of its kind.
pub proof fn law_reset_page_is_empty(page: SlotModel, tag: u32)
    requires
        page.owner == id_bytes(),
    ensures
        page_reset(page, tag) is Ok,
        page_reset(page, tag)->Ok_0.data.len() == 8,
        decode_outcome(page.owner, page_reset(page, tag)->Ok_0.data, tag) == Ok::<
            u32,
            RegistryError,
        >(0),
{
    lemma_registry_is_not_fresh();
    lemma_header_round_trip(tag, 0, Seq::empty());
    assert(header_spec(tag, 0) + Seq::<u8>::empty() =~= header_spec(tag, 0));
}

} // verus!
