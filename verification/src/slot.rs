use vstd::prelude::*;

verus! {

/// A 32-byte identifier of a slot, a program or an owner.
#[derive(Clone, Copy, Debug)]
pub struct Key32 {
    pub bytes: [u8; 32],
}

impl View for Key32 {
    type V = Seq<u8>;

    open spec fn view(&self) -> Seq<u8> {
        self.bytes@
    }
}

impl Key32 {
    /// A key made of the given bytes.
    pub fn new(bytes: [u8; 32]) -> (key: Key32)
        ensures
            key@ == bytes@,
            key.bytes == bytes,
    {
        Key32 { bytes }
    }

    /// Whether two keys hold the same bytes.
    pub fn same(&self, other: &Key32) -> (eq: bool)
        ensures
            eq == (self@ == other@),
    {
        let mut i: usize = 0;
        while i < 32
            invariant
                i <= 32,
                forall|j: int| 0 <= j < i ==> self.bytes@[j] == other.bytes@[j],
            decreases 32 - i,
        {
            if self.bytes[i] != other.bytes[i] {
                return false;
            }
            i += 1;
        }
        assert(self@ =~= other@);
        true
    }
}

/// A storage slot as the registry reads it: an address, the owner that controls it,
/// the collateral it holds and its byte buffer.
#[derive(Clone, Debug)]
pub struct Slot {
    pub key: Key32,
    pub owner: Key32,
    pub lamports: u64,
    pub data: Vec<u8>,
    pub is_signer: bool,
    pub executable: bool,
}

/// What a slot holds, as plain values.
pub struct SlotModel {
    pub key: Seq<u8>,
    pub owner: Seq<u8>,
    pub lamports: u64,
    pub data: Seq<u8>,
    pub is_signer: bool,
    pub executable: bool,
}

impl View for Slot {
    type V = SlotModel;

    open spec fn view(&self) -> SlotModel {
        SlotModel {
            key: self.key@,
            owner: self.owner@,
            lamports: self.lamports,
            data: self.data@,
            is_signer: self.is_signer,
            executable: self.executable,
        }
    }
}

/// What each of a sequence of slots holds.
pub open spec fn models(slots: Seq<Slot>) -> Seq<SlotModel> {
    slots.map_values(|slot: Slot| slot@)
}

impl Slot {
    /// Whether two slots agree in everything but their bytes.
    pub open spec fn same_but_data(&self, other: &Slot) -> bool {
        &&& self.key == other.key
        &&& self.owner == other.owner
        &&& self.lamports == other.lamports
        &&& self.is_signer == other.is_signer
        &&& self.executable == other.executable
    }

    /// Whether two slots agree in everything but the lamports they hold.
    pub open spec fn same_but_funds(&self, other: &Slot) -> bool {
        &&& self.key == other.key
        &&& self.owner == other.owner
        &&& self.data@ == other.data@
        &&& self.is_signer == other.is_signer
        &&& self.executable == other.executable
    }

    /// Whether two slots agree in everything.
    pub open spec fn same_as(&self, other: &Slot) -> bool {
        self.same_but_data(other) && self.data@ == other.data@
    }
}

impl Slot {
    /// A copy of the slot.
    pub fn duplicate(&self) -> (copy: Slot)
        ensures
            copy.same_as(self),
            copy@ == self@,
    {
        Slot {
            key: self.key,
            owner: self.owner,
            lamports: self.lamports,
            data: self.data.clone(),
            is_signer: self.is_signer,
            executable: self.executable,
        }
    }
}

} // verus!
