pub mod constants;

use crate::codec::{count_of, read_header, tag_of};
use crate::error::RegistryError;
use crate::name::{stored_name, stored_name_spec};
use crate::page::{entries_of, page_size};
use crate::record::{
    append_outcome, append_to_page, decode_header, decode_outcome, encode_header, encode_outcome,
    find_in_page, find_outcome, lemma_decode_of_encode, remove_from_page, remove_outcome,
};
use crate::slot::{models, Key32, Slot, SlotModel};
use crate::state::constants::{
    id, id_bytes, CONFIG_VALIDATION_PHASE, MARKETPLACE_STORAGE_VALIDATION_PHRASE, MAX_NAME_LENGTH,
    NAME_STORAGE_VALIDATION_PHRASE, PAGE_CAPACITY_NAMES, PAGE_CAPACITY_PROGRAMS,
    STORAGE_VALIDATION_PHASE,
};
use crate::utils::AccountInfoHelpers;
use vstd::prelude::*;
use vstd::string::StringSliceAdditionalSpecFns;

verus! {

/// The global counter: how many programs have been registered.
#[derive(Clone, Copy, Debug, PartialEq, Eq, Structural)]
pub struct Config {
    pub validation_phase: u32,
    pub validator_numeration: u32,
}

impl Default for Config {
    fn default() -> (config: Self)
        ensures
            config.validation_phase == CONFIG_VALIDATION_PHASE,
            config.validator_numeration == 0,
    {
        Self { validation_phase: CONFIG_VALIDATION_PHASE, validator_numeration: 0 }
    }
}

impl Config {
    /// Whether the record carries the tag of its kind.
    pub open spec fn wf(&self) -> bool {
        self.validation_phase == CONFIG_VALIDATION_PHASE
    }

    /// The counter that a slot holds, or the reason why it holds none.
    pub open spec fn decoded(account: &Slot) -> Result<Config, RegistryError> {
        match decode_outcome(account.owner@, account.data@, CONFIG_VALIDATION_PHASE) {
            Ok(count) => Ok(
                Config { validation_phase: CONFIG_VALIDATION_PHASE, validator_numeration: count },
            ),
            Err(e) => Err(e),
        }
    }

    /// The bytes that writing the counter over `data` gives.
    pub open spec fn encoded(&self, data: Seq<u8>) -> Result<Seq<u8>, RegistryError> {
        encode_outcome(data, self.validation_phase, self.validator_numeration, 0)
    }

    /// Reads the counter out of its slot.
    pub fn decode(account: &Slot) -> (r: Result<Config, RegistryError>)
        ensures
            r == Self::decoded(account),
    {
        let count = decode_header(account, CONFIG_VALIDATION_PHASE)?;
        Ok(Config { validation_phase: CONFIG_VALIDATION_PHASE, validator_numeration: count })
    }

    /// Writes the counter into its slot, whose buffer has to be eight bytes long.
    pub fn encode(&self, account: &mut Slot) -> (r: Result<(), RegistryError>)
        ensures
            final(account).same_but_data(old(account)),
            match self.encoded(old(account).data@) {
                Ok(data) => r is Ok && final(account).data@ == data,
                Err(e) => r == Err::<(), RegistryError>(e) && final(account).data@ == old(
                    account,
                ).data@,
            },
    {
        encode_header(account, self.validation_phase, self.validator_numeration, 0)
    }

    /// Number of bytes that the counter fills.
    pub fn get_space(&self) -> (space: usize)
        ensures
            space == 8,
    {
        8
    }

    /// A counter written into its slot reads back as it was.
    pub proof fn law_round_trip(self, before: Slot, after: Slot)
        requires
            self.wf(),
            before.owner@ == id_bytes(),
            after.same_but_data(&before),
            self.encoded(before.data@) == Ok::<Seq<u8>, RegistryError>(after.data@),
        ensures
            Self::decoded(&after) == Ok::<Config, RegistryError>(self),
    {
        lemma_decode_of_encode(
            before.owner@,
            before.data@,
            self.validation_phase,
            self.validator_numeration,
            0,
        );
    }
}

/// The header of a program page. The keys themselves lie behind the header in
/// the page's slot, 32 bytes each, in the order in which they were added.
#[derive(Clone, Copy, Debug, PartialEq, Eq, Structural)]
pub struct Storage {
    pub validation_phase: u32,
    pub num_programs: u32,
}

impl Default for Storage {
    fn default() -> (page: Self)
        ensures
            page.validation_phase == STORAGE_VALIDATION_PHASE,
            page.num_programs == 0,
            page.wf(),
    {
        Self { validation_phase: STORAGE_VALIDATION_PHASE, num_programs: 0 }
    }
}

impl Storage {
    /// Whether the record carries the tag of its kind and counts no more keys
    /// than a page may hold.
    pub open spec fn wf(&self) -> bool {
        &&& self.validation_phase == STORAGE_VALIDATION_PHASE
        &&& self.num_programs <= PAGE_CAPACITY_PROGRAMS
    }

    /// The header that a slot holds, or the reason why it holds none.
    pub open spec fn decoded(account: &Slot) -> Result<Storage, RegistryError> {
        match decode_outcome(account.owner@, account.data@, STORAGE_VALIDATION_PHASE) {
            Ok(count) => Ok(
                Storage { validation_phase: STORAGE_VALIDATION_PHASE, num_programs: count },
            ),
            Err(e) => Err(e),
        }
    }

    /// The bytes that writing the header over `data` gives.
    pub open spec fn encoded(&self, data: Seq<u8>) -> Result<Seq<u8>, RegistryError> {
        encode_outcome(data, self.validation_phase, self.num_programs, 32)
    }

    /// The keys that the page holds in `data`, in their order.
    pub open spec fn programs(&self, data: Seq<u8>) -> Seq<Seq<u8>> {
        entries_of(data, 32, self.num_programs as nat)
    }

    /// Reads the header out of the page's slot.
    pub fn decode(account: &Slot) -> (r: Result<Storage, RegistryError>)
        ensures
            r == Self::decoded(account),
    {
        let count = decode_header(account, STORAGE_VALIDATION_PHASE)?;
        Ok(Storage { validation_phase: STORAGE_VALIDATION_PHASE, num_programs: count })
    }

    /// Writes the header into the page's slot, whose buffer has to have exactly
    /// the size of the page.
    pub fn encode(&self, account: &mut Slot) -> (r: Result<(), RegistryError>)
        ensures
            final(account).same_but_data(old(account)),
            match self.encoded(old(account).data@) {
                Ok(data) => r is Ok && final(account).data@ == data,
                Err(e) => r == Err::<(), RegistryError>(e) && final(account).data@ == old(
                    account,
                ).data@,
            },
    {
        encode_header(account, self.validation_phase, self.num_programs, 32)
    }

    /// Number of bytes that the page fills: the header and 32 bytes for each key.
    pub fn get_space(&self) -> (space: usize)
        requires
            page_size(32, self.num_programs as int) <= usize::MAX,
        ensures
            space == page_size(32, self.num_programs as int),
    {
        Self::get_init_space() + (self.num_programs as usize * 32)
    }

    /// Number of bytes that an empty page fills.
    pub fn get_init_space() -> (space: usize)
        ensures
            space == 8,
    {
        8
    }

    /// Searches the page in `account` for `program_id`, from the position
    /// `optimistic_index`, or from the last key, down to the first.
    pub fn find_program(program_id: Key32, account: &Slot, optimistic_index: Option<u32>) -> (r:
        Result<Option<u32>, RegistryError>)
        ensures
            find_outcome(
                account.owner@,
                account.data@,
                STORAGE_VALIDATION_PHASE,
                32,
                program_id@,
                optimistic_index,
                r,
            ),
    {
        find_in_page(
            account,
            STORAGE_VALIDATION_PHASE,
            32,
            program_id.bytes.as_slice(),
            optimistic_index,
        )
    }

    /// Adds `program` behind the keys of the page and counts it. A key that the
    /// page holds already is refused, whatever room the buffer has; for a new
    /// key the buffer of `account` has to have room for exactly one key more.
    /// On failure neither the record nor the slot changes.
    pub fn add_program(&mut self, program: Key32, account: &mut Slot) -> (r: Result<
        (),
        RegistryError,
    >)
        ensures
            final(account).same_but_data(old(account)),
            final(self).validation_phase == old(self).validation_phase,
            old(self).num_programs >= PAGE_CAPACITY_PROGRAMS ==> r == Err::<(), RegistryError>(
                RegistryError::PageCapacityExceeded,
            ) && final(account).data@ == old(account).data@,
            old(self).num_programs < PAGE_CAPACITY_PROGRAMS && old(account).data@.len()
                >= page_size(32, old(self).num_programs as int) && old(self).programs(
                old(account).data@,
            ).contains(program@) ==> r == Err::<(), RegistryError>(RegistryError::DuplicateEntry)
                && final(account).data@ == old(account).data@,
            match append_outcome(
                old(account).data@,
                32,
                old(self).num_programs,
                PAGE_CAPACITY_PROGRAMS,
                program@,
                RegistryError::DuplicateEntry,
            ) {
                Ok(data) => {
                    &&& r is Ok
                    &&& final(account).data@ == data
                    &&& final(self).num_programs == old(self).num_programs + 1
                    &&& final(self).programs(data) == old(self).programs(old(account).data@).push(
                        program@,
                    )
                },
                Err(e) => {
                    &&& r == Err::<(), RegistryError>(e)
                    &&& final(account).data@ == old(account).data@
                    &&& final(self).num_programs == old(self).num_programs
                },
            },
    {
        append_to_page(
            account,
            32,
            self.num_programs,
            PAGE_CAPACITY_PROGRAMS,
            program.bytes.as_slice(),
            RegistryError::DuplicateEntry,
        )?;
        self.num_programs += 1;
        Ok(())
    }

    /// Removes `program` from the keys of the page, moves the keys behind it
    /// up and counts one key less. Returns the position the key was at. The
    /// buffer of `account` has to have exactly the size of the page and is
    /// left one key shorter. On failure neither the record nor the slot changes.
    pub fn remove_program(&mut self, program: Key32, account: &mut Slot) -> (r: Result<
        u32,
        RegistryError,
    >)
        ensures
            final(account).same_but_data(old(account)),
            final(self).validation_phase == old(self).validation_phase,
            remove_outcome(
                old(account).data@,
                32,
                old(self).num_programs,
                PAGE_CAPACITY_PROGRAMS,
                program@,
                r,
                final(account).data@,
            ),
            final(self).num_programs == (if r is Ok {
                old(self).num_programs - 1
            } else {
                old(self).num_programs as int
            }),
    {
        let at = remove_from_page(
            account,
            32,
            self.num_programs,
            PAGE_CAPACITY_PROGRAMS,
            program.bytes.as_slice(),
        )?;
        self.num_programs -= 1;
        Ok(at)
    }

    /// A header written into its page reads back as it was.
    pub proof fn law_round_trip(self, before: Slot, after: Slot)
        requires
            self.wf(),
            before.owner@ == id_bytes(),
            after.same_but_data(&before),
            self.encoded(before.data@) == Ok::<Seq<u8>, RegistryError>(after.data@),
        ensures
            Self::decoded(&after) == Ok::<Storage, RegistryError>(self),
    {
        lemma_decode_of_encode(
            before.owner@,
            before.data@,
            self.validation_phase,
            self.num_programs,
            32,
        );
    }
}

/// The header of a marketplace page. The keys themselves lie behind the header in
/// the page's slot, 32 bytes each, in the order in which they were added.
#[derive(Clone, Copy, Debug, PartialEq, Eq, Structural)]
pub struct MarketplaceStorage {
    pub validation_phase: u32,
    pub num_programs: u32,
}

impl Default for MarketplaceStorage {
    fn default() -> (page: Self)
        ensures
            page.validation_phase == MARKETPLACE_STORAGE_VALIDATION_PHRASE,
            page.num_programs == 0,
            page.wf(),
    {
        Self { validation_phase: MARKETPLACE_STORAGE_VALIDATION_PHRASE, num_programs: 0 }
    }
}

impl MarketplaceStorage {
    /// Whether the record carries the tag of its kind and counts no more keys
    /// than a page may hold.
    pub open spec fn wf(&self) -> bool {
        &&& self.validation_phase == MARKETPLACE_STORAGE_VALIDATION_PHRASE
        &&& self.num_programs <= PAGE_CAPACITY_PROGRAMS
    }

    /// The header that a slot holds, or the reason why it holds none.
    pub open spec fn decoded(account: &Slot) -> Result<MarketplaceStorage, RegistryError> {
        match decode_outcome(account.owner@, account.data@, MARKETPLACE_STORAGE_VALIDATION_PHRASE) {
            Ok(count) => Ok(
                MarketplaceStorage { validation_phase: MARKETPLACE_STORAGE_VALIDATION_PHRASE, num_programs: count },
            ),
            Err(e) => Err(e),
        }
    }

    /// The bytes that writing the header over `data` gives.
    pub open spec fn encoded(&self, data: Seq<u8>) -> Result<Seq<u8>, RegistryError> {
        encode_outcome(data, self.validation_phase, self.num_programs, 32)
    }

    /// The keys that the page holds in `data`, in their order.
    pub open spec fn programs(&self, data: Seq<u8>) -> Seq<Seq<u8>> {
        entries_of(data, 32, self.num_programs as nat)
    }

    /// Reads the header out of the page's slot.
    pub fn decode(account: &Slot) -> (r: Result<MarketplaceStorage, RegistryError>)
        ensures
            r == Self::decoded(account),
    {
        let count = decode_header(account, MARKETPLACE_STORAGE_VALIDATION_PHRASE)?;
        Ok(MarketplaceStorage { validation_phase: MARKETPLACE_STORAGE_VALIDATION_PHRASE, num_programs: count })
    }

    /// Writes the header into the page's slot, whose buffer has to have exactly
    /// the size of the page.
    pub fn encode(&self, account: &mut Slot) -> (r: Result<(), RegistryError>)
        ensures
            final(account).same_but_data(old(account)),
            match self.encoded(old(account).data@) {
                Ok(data) => r is Ok && final(account).data@ == data,
                Err(e) => r == Err::<(), RegistryError>(e) && final(account).data@ == old(
                    account,
                ).data@,
            },
    {
        encode_header(account, self.validation_phase, self.num_programs, 32)
    }

    /// Number of bytes that the page fills: the header and 32 bytes for each key.
    pub fn get_space(&self) -> (space: usize)
        requires
            page_size(32, self.num_programs as int) <= usize::MAX,
        ensures
            space == page_size(32, self.num_programs as int),
    {
        Self::get_init_space() + (self.num_programs as usize * 32)
    }

    /// Number of bytes that an empty page fills.
    pub fn get_init_space() -> (space: usize)
        ensures
            space == 8,
    {
        8
    }

    /// Searches the page in `account` for `program_id`, from the position
    /// `optimistic_index`, or from the last key, down to the first.
    pub fn find_program(program_id: Key32, account: &Slot, optimistic_index: Option<u32>) -> (r:
        Result<Option<u32>, RegistryError>)
        ensures
            find_outcome(
                account.owner@,
                account.data@,
                MARKETPLACE_STORAGE_VALIDATION_PHRASE,
                32,
                program_id@,
                optimistic_index,
                r,
            ),
    {
        find_in_page(
            account,
            MARKETPLACE_STORAGE_VALIDATION_PHRASE,
            32,
            program_id.bytes.as_slice(),
            optimistic_index,
        )
    }

    /// Adds `program` behind the keys of the page and counts it. A key that the
    /// page holds already is refused, whatever room the buffer has; for a new
    /// key the buffer of `account` has to have room for exactly one key more.
    /// On failure neither the record nor the slot changes.
    pub fn add_program(&mut self, program: Key32, account: &mut Slot) -> (r: Result<
        (),
        RegistryError,
    >)
        ensures
            final(account).same_but_data(old(account)),
            final(self).validation_phase == old(self).validation_phase,
            old(self).num_programs >= PAGE_CAPACITY_PROGRAMS ==> r == Err::<(), RegistryError>(
                RegistryError::PageCapacityExceeded,
            ) && final(account).data@ == old(account).data@,
            old(self).num_programs < PAGE_CAPACITY_PROGRAMS && old(account).data@.len()
                >= page_size(32, old(self).num_programs as int) && old(self).programs(
                old(account).data@,
            ).contains(program@) ==> r == Err::<(), RegistryError>(RegistryError::DuplicateEntry)
                && final(account).data@ == old(account).data@,
            match append_outcome(
                old(account).data@,
                32,
                old(self).num_programs,
                PAGE_CAPACITY_PROGRAMS,
                program@,
                RegistryError::DuplicateEntry,
            ) {
                Ok(data) => {
                    &&& r is Ok
                    &&& final(account).data@ == data
                    &&& final(self).num_programs == old(self).num_programs + 1
                    &&& final(self).programs(data) == old(self).programs(old(account).data@).push(
                        program@,
                    )
                },
                Err(e) => {
                    &&& r == Err::<(), RegistryError>(e)
                    &&& final(account).data@ == old(account).data@
                    &&& final(self).num_programs == old(self).num_programs
                },
            },
    {
        append_to_page(
            account,
            32,
            self.num_programs,
            PAGE_CAPACITY_PROGRAMS,
            program.bytes.as_slice(),
            RegistryError::DuplicateEntry,
        )?;
        self.num_programs += 1;
        Ok(())
    }

    /// Removes `program` from the keys of the page, moves the keys behind it
    /// up and counts one key less. Returns the position the key was at. The
    /// buffer of `account` has to have exactly the size of the page and is
    /// left one key shorter. On failure neither the record nor the slot changes.
    pub fn remove_program(&mut self, program: Key32, account: &mut Slot) -> (r: Result<
        u32,
        RegistryError,
    >)
        ensures
            final(account).same_but_data(old(account)),
            final(self).validation_phase == old(self).validation_phase,
            remove_outcome(
                old(account).data@,
                32,
                old(self).num_programs,
                PAGE_CAPACITY_PROGRAMS,
                program@,
                r,
                final(account).data@,
            ),
            final(self).num_programs == (if r is Ok {
                old(self).num_programs - 1
            } else {
                old(self).num_programs as int
            }),
    {
        let at = remove_from_page(
            account,
            32,
            self.num_programs,
            PAGE_CAPACITY_PROGRAMS,
            program.bytes.as_slice(),
        )?;
        self.num_programs -= 1;
        Ok(at)
    }

    /// A header written into its page reads back as it was.
    pub proof fn law_round_trip(self, before: Slot, after: Slot)
        requires
            self.wf(),
            before.owner@ == id_bytes(),
            after.same_but_data(&before),
            self.encoded(before.data@) == Ok::<Seq<u8>, RegistryError>(after.data@),
        ensures
            Self::decoded(&after) == Ok::<MarketplaceStorage, RegistryError>(self),
    {
        lemma_decode_of_encode(
            before.owner@,
            before.data@,
            self.validation_phase,
            self.num_programs,
            32,
        );
    }
}

/// The header of a name page. The names themselves lie behind the header in the
/// page's slot, twelve bytes each, in the order in which they were added.
#[derive(Clone, Copy, Debug, PartialEq, Eq, Structural)]
pub struct NameStorage {
    pub validation_phrase: u32,
    pub num_names: u32,
}

impl Default for NameStorage {
    fn default() -> (page: Self)
        ensures
            page.validation_phrase == NAME_STORAGE_VALIDATION_PHRASE,
            page.num_names == 0,
            page.wf(),
    {
        Self { validation_phrase: NAME_STORAGE_VALIDATION_PHRASE, num_names: 0 }
    }
}

/// The names that a name page holds, or the reason why its slot cannot be read.
pub open spec fn page_names(page: SlotModel) -> Result<Seq<Seq<u8>>, RegistryError> {
    match decode_outcome(page.owner, page.data, NAME_STORAGE_VALIDATION_PHRASE) {
        Err(e) => Err(e),
        Ok(count) => if count == 0 {
            Ok(Seq::empty())
        } else if page.data.len() < page_size(12, count as int) {
            Err(RegistryError::BufferSizeMismatch)
        } else {
            Ok(entries_of(page.data, 12, count as nat))
        },
    }
}

/// Whether some page from position `from` on holds `name`, reading the pages in
/// their order and failing at the first that cannot be read.
pub open spec fn scan_names(pages: Seq<SlotModel>, from: int, name: Seq<u8>) -> Result<
    bool,
    RegistryError,
>
    decreases pages.len() - from,
{
    if from < 0 || from >= pages.len() {
        Ok(false)
    } else {
        match page_names(pages[from]) {
            Err(e) => Err(e),
            Ok(names) => if names.contains(name) {
                Ok(true)
            } else {
                scan_names(pages, from + 1, name)
            },
        }
    }
}

/// Whether one of `pages` holds the stored name `name`, reading the pages from
/// the oldest to the newest.
pub fn name_in_pages(name: &[u8], pages: &Vec<Slot>) -> (r: Result<bool, RegistryError>)
    ensures
        r == scan_names(models(pages@), 0, name@),
{
    let mut i: usize = 0;
    while i < pages.len()
        invariant
            i <= pages@.len(),
            scan_names(models(pages@), 0, name@) == scan_names(models(pages@), i as int, name@),
        decreases pages@.len() - i,
    {
        let found = find_in_page(&pages[i], NAME_STORAGE_VALIDATION_PHRASE, 12, name, None);
        match found {
            Err(e) => {
                return Err(e);
            },
            Ok(Some(at)) => {
                let ghost names = entries_of(
                    pages@[i as int].data@,
                    12,
                    count_of(pages@[i as int].data@) as nat,
                );
                assert(names[at as int] == name@);
                return Ok(true);
            },
            Ok(None) => {},
        }
        i += 1;
    }
    Ok(false)
}

impl NameStorage {
    /// Whether the record carries the tag of its kind and counts no more names
    /// than a page may hold.
    pub open spec fn wf(&self) -> bool {
        &&& self.validation_phrase == NAME_STORAGE_VALIDATION_PHRASE
        &&& self.num_names <= PAGE_CAPACITY_NAMES
    }

    /// The header that a slot holds, or the reason why it holds none.
    pub open spec fn decoded(account: &Slot) -> Result<NameStorage, RegistryError> {
        match decode_outcome(account.owner@, account.data@, NAME_STORAGE_VALIDATION_PHRASE) {
            Ok(count) => Ok(
                NameStorage { validation_phrase: NAME_STORAGE_VALIDATION_PHRASE, num_names: count },
            ),
            Err(e) => Err(e),
        }
    }

    /// The bytes that writing the header over `data` gives.
    pub open spec fn encoded(&self, data: Seq<u8>) -> Result<Seq<u8>, RegistryError> {
        encode_outcome(data, self.validation_phrase, self.num_names, 12)
    }

    /// The names that the page holds in `data`, in their order.
    pub open spec fn names(&self, data: Seq<u8>) -> Seq<Seq<u8>> {
        entries_of(data, 12, self.num_names as nat)
    }

    /// Whether the stored name `bytes` is held already: by a page of `earlier`,
    /// all of which can be read as far as the scan goes, or, where none of them
    /// holds it, by this page, whose buffer holds the names that it counts.
    pub open spec fn holds_name(&self, data: Seq<u8>, bytes: Seq<u8>, earlier: Seq<SlotModel>) -> bool {
        ||| scan_names(earlier, 0, bytes) == Ok::<bool, RegistryError>(true)
        ||| {
            &&& scan_names(earlier, 0, bytes) == Ok::<bool, RegistryError>(false)
            &&& data.len() >= page_size(12, self.num_names as int)
            &&& self.names(data).contains(bytes)
        }
    }

    /// What adding the raw name `raw` to the page gives, where `earlier` holds
    /// the name pages before this one: `PageCapacityExceeded` on a full page;
    /// then `InvalidNameLength` for a name that cannot be stored; then the
    /// earlier pages are read, oldest first, and a page that cannot be read
    /// fails as reading it does, a page that holds the name's stored bytes
    /// with `DuplicateName`; then what appending the stored bytes to this page
    /// gives, which is `DuplicateName` where this page holds them.
    pub open spec fn add_name_outcome(
        &self,
        data: Seq<u8>,
        raw: Seq<char>,
        earlier: Seq<SlotModel>,
    ) -> Result<Seq<u8>, RegistryError> {
        if self.num_names >= PAGE_CAPACITY_NAMES {
            Err(RegistryError::PageCapacityExceeded)
        } else {
            match stored_name_spec(raw) {
                Err(e) => Err(e),
                Ok(bytes) => match scan_names(earlier, 0, bytes) {
                    Err(e) => Err(e),
                    Ok(true) => Err(RegistryError::DuplicateName),
                    Ok(false) => append_outcome(
                        data,
                        12,
                        self.num_names,
                        PAGE_CAPACITY_NAMES,
                        bytes,
                        RegistryError::DuplicateName,
                    ),
                },
            }
        }
    }

    /// Reads the header out of the page's slot.
    pub fn decode(account: &Slot) -> (r: Result<NameStorage, RegistryError>)
        ensures
            r == Self::decoded(account),
    {
        let count = decode_header(account, NAME_STORAGE_VALIDATION_PHRASE)?;
        Ok(NameStorage { validation_phrase: NAME_STORAGE_VALIDATION_PHRASE, num_names: count })
    }

    /// Writes the header into the page's slot, whose buffer has to have exactly
    /// the size of the page.
    pub fn encode(&self, account: &mut Slot) -> (r: Result<(), RegistryError>)
        ensures
            final(account).same_but_data(old(account)),
            match self.encoded(old(account).data@) {
                Ok(data) => r is Ok && final(account).data@ == data,
                Err(e) => r == Err::<(), RegistryError>(e) && final(account).data@ == old(
                    account,
                ).data@,
            },
    {
        encode_header(account, self.validation_phrase, self.num_names, 12)
    }

    /// Number of bytes that the page fills: the header and twelve bytes for each name.
    pub fn get_space(&self) -> (space: usize)
        requires
            page_size(12, self.num_names as int) <= usize::MAX,
        ensures
            space == page_size(12, self.num_names as int),
    {
        Self::get_init_space() + (MAX_NAME_LENGTH * self.num_names as usize)
    }

    /// Number of bytes that an empty page fills.
    pub fn get_init_space() -> (space: usize)
        ensures
            space == 8,
    {
        8
    }

    /// Searches the page in `account` for the stored name whose bytes are those
    /// of `name`, from the position `optimistic_index`, or from the last name,
    /// down to the first.
    pub fn find_name(name: &str, account: &Slot, optimistic_index: Option<u32>) -> (r: Result<
        Option<u32>,
        RegistryError,
    >)
        ensures
            find_outcome(
                account.owner@,
                account.data@,
                NAME_STORAGE_VALIDATION_PHRASE,
                12,
                name.spec_bytes(),
                optimistic_index,
                r,
            ),
    {
        find_in_page(
            account,
            NAME_STORAGE_VALIDATION_PHRASE,
            12,
            name.as_bytes(),
            optimistic_index,
        )
    }

    /// Normalizes `name`, checks it, makes sure that neither the pages of
    /// `earlier`, read from the oldest on, nor this page hold it, and adds it
    /// behind the names of this page. The buffer of `account` has to have room
    /// for exactly one name more. On failure neither the record nor the slot
    /// changes; the pages of `earlier` are only read.
    pub fn add_name(&mut self, name: &str, account: &mut Slot, earlier: &Vec<Slot>) -> (r:
        Result<(), RegistryError>)
        ensures
            final(account).same_but_data(old(account)),
            final(self).validation_phrase == old(self).validation_phrase,
            old(self).num_names >= PAGE_CAPACITY_NAMES ==> r == Err::<(), RegistryError>(
                RegistryError::PageCapacityExceeded,
            ) && final(account).data@ == old(account).data@,
            old(self).num_names < PAGE_CAPACITY_NAMES && stored_name_spec(name@) is Ok
                && old(self).holds_name(
                old(account).data@,
                stored_name_spec(name@)->Ok_0,
                models(earlier@),
            ) ==> r == Err::<(), RegistryError>(RegistryError::DuplicateName)
                && final(account).data@ == old(account).data@,
            match old(self).add_name_outcome(
                old(account).data@,
                name@,
                models(earlier@),
            ) {
                Ok(data) => {
                    &&& r is Ok
                    &&& final(account).data@ == data
                    &&& final(self).num_names == old(self).num_names + 1
                    &&& stored_name_spec(name@) is Ok
                    &&& final(self).names(data) == old(self).names(old(account).data@).push(
                        stored_name_spec(name@)->Ok_0,
                    )
                },
                Err(e) => {
                    &&& r == Err::<(), RegistryError>(e)
                    &&& final(account).data@ == old(account).data@
                    &&& final(self).num_names == old(self).num_names
                },
            },
    {
        if self.num_names >= PAGE_CAPACITY_NAMES {
            return Err(RegistryError::PageCapacityExceeded);
        }
        let bytes = stored_name(name)?;
        if name_in_pages(bytes.as_slice(), earlier)? {
            return Err(RegistryError::DuplicateName);
        }
        append_to_page(
            account,
            12,
            self.num_names,
            PAGE_CAPACITY_NAMES,
            bytes.as_slice(),
            RegistryError::DuplicateName,
        )?;
        self.num_names += 1;
        Ok(())
    }

    /// A header written into its page reads back as it was.
    pub proof fn law_round_trip(self, before: Slot, after: Slot)
        requires
            self.wf(),
            before.owner@ == id_bytes(),
            after.same_but_data(&before),
            self.encoded(before.data@) == Ok::<Seq<u8>, RegistryError>(after.data@),
        ensures
            Self::decoded(&after) == Ok::<NameStorage, RegistryError>(self),
    {
        lemma_decode_of_encode(
            before.owner@,
            before.data@,
            self.validation_phrase,
            self.num_names,
            12,
        );
    }
}

/// A record of any of the four kinds, told apart by the tag in its header.
#[derive(Clone, Copy, Debug, PartialEq, Eq, Structural)]
pub enum Record {
    Counter(Config),
    Programs(Storage),
    Names(NameStorage),
    Marketplace(MarketplaceStorage),
}

impl Record {
    /// Whether the record carries the tag of its kind and counts no more
    /// entries than a page may hold.
    pub open spec fn wf(&self) -> bool {
        match self {
            Record::Counter(counter) => counter.wf(),
            Record::Programs(page) => page.wf(),
            Record::Names(page) => page.wf(),
            Record::Marketplace(page) => page.wf(),
        }
    }

    /// The record that a slot holds, whatever its kind, or the reason why it
    /// holds none: the slot has to belong to the registry and to start with a
    /// header whose tag is that of one of the four kinds.
    pub open spec fn decoded(account: &Slot) -> Result<Record, RegistryError> {
        if account.owner@ != id_bytes() {
            Err(RegistryError::OwnershipMismatch)
        } else if account.data@.len() < 8 {
            Err(RegistryError::BufferSizeMismatch)
        } else {
            let tag = tag_of(account.data@);
            let count = count_of(account.data@);
            if tag == CONFIG_VALIDATION_PHASE {
                Ok(Record::Counter(Config { validation_phase: tag, validator_numeration: count }))
            } else if tag == STORAGE_VALIDATION_PHASE {
                Ok(Record::Programs(Storage { validation_phase: tag, num_programs: count }))
            } else if tag == NAME_STORAGE_VALIDATION_PHRASE {
                Ok(Record::Names(NameStorage { validation_phrase: tag, num_names: count }))
            } else if tag == MARKETPLACE_STORAGE_VALIDATION_PHRASE {
                Ok(
                    Record::Marketplace(
                        MarketplaceStorage { validation_phase: tag, num_programs: count },
                    ),
                )
            } else {
                Err(RegistryError::SchemaTagMismatch)
            }
        }
    }

    /// The bytes that writing the record's header over `data` gives.
    pub open spec fn encoded(&self, data: Seq<u8>) -> Result<Seq<u8>, RegistryError> {
        match self {
            Record::Counter(counter) => counter.encoded(data),
            Record::Programs(page) => page.encoded(data),
            Record::Names(page) => page.encoded(data),
            Record::Marketplace(page) => page.encoded(data),
        }
    }

    /// Reads the record that a slot holds, whatever its kind.
    pub fn decode(account: &Slot) -> (r: Result<Record, RegistryError>)
        ensures
            r == Self::decoded(account),
    {
        let program = id();
        account.assert_owner(&program)?;
        match read_header(account.data.as_slice()) {
            None => Err(RegistryError::BufferSizeMismatch),
            Some((tag, count)) => {
                if tag == CONFIG_VALIDATION_PHASE {
                    Ok(
                        Record::Counter(
                            Config { validation_phase: tag, validator_numeration: count },
                        ),
                    )
                } else if tag == STORAGE_VALIDATION_PHASE {
                    Ok(Record::Programs(Storage { validation_phase: tag, num_programs: count }))
                } else if tag == NAME_STORAGE_VALIDATION_PHRASE {
                    Ok(Record::Names(NameStorage { validation_phrase: tag, num_names: count }))
                } else if tag == MARKETPLACE_STORAGE_VALIDATION_PHRASE {
                    Ok(
                        Record::Marketplace(
                            MarketplaceStorage { validation_phase: tag, num_programs: count },
                        ),
                    )
                } else {
                    Err(RegistryError::SchemaTagMismatch)
                }
            },
        }
    }

    /// Writes the record's header into a slot whose buffer has exactly the
    /// record's size.
    pub fn encode(&self, account: &mut Slot) -> (r: Result<(), RegistryError>)
        ensures
            final(account).same_but_data(old(account)),
            match self.encoded(old(account).data@) {
                Ok(data) => r is Ok && final(account).data@ == data,
                Err(e) => r == Err::<(), RegistryError>(e) && final(account).data@ == old(
                    account,
                ).data@,
            },
    {
        match self {
            Record::Counter(counter) => counter.encode(account),
            Record::Programs(page) => page.encode(account),
            Record::Names(page) => page.encode(account),
            Record::Marketplace(page) => page.encode(account),
        }
    }

    /// A record of any kind, written into a slot of the registry whose buffer
    /// has the record's size, reads back as it was.
    pub proof fn law_round_trip(self, before: Slot, after: Slot)
        requires
            self.wf(),
            before.owner@ == id_bytes(),
            after.same_but_data(&before),
            self.encoded(before.data@) == Ok::<Seq<u8>, RegistryError>(after.data@),
        ensures
            Self::decoded(&after) == Ok::<Record, RegistryError>(self),
    {
        match self {
            Record::Counter(counter) => counter.law_round_trip(before, after),
            Record::Programs(page) => page.law_round_trip(before, after),
            Record::Names(page) => page.law_round_trip(before, after),
            Record::Marketplace(page) => page.law_round_trip(before, after),
        }
    }
}

} // verus!
