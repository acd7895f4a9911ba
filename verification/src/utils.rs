use crate::error::RegistryError;
use crate::slot::{Key32, Slot};
use solana_program::pubkey::Pubkey;
use vstd::prelude::*;

verus! {

/// The address that the ledger derives from a list of seeds and an owning program,
/// with the bump seed that the search settled on; `None` where the search finds none.
pub uninterp spec fn derived_address(seeds: Seq<Seq<u8>>, program_id: Seq<u8>) -> Option<
    (Seq<u8>, u8),
>;

/// Calls solana_program's `Pubkey::try_find_program_address`.
/// Trusted: the result is a function of the seeds and the program's key alone,
/// named `derived_address`; nothing is claimed about which address it is.
#[verifier::external_body]
fn find_address(seeds: &Vec<Vec<u8>>, program_id: &Key32) -> (r: Option<(Key32, u8)>)
    ensures
        r is Some <==> derived_address(seeds.deep_view(), program_id@) is Some,
        r matches Some((key, bump)) ==> derived_address(seeds.deep_view(), program_id@) == Some(
            (key@, bump),
        ),
{
    let parts: Vec<&[u8]> = seeds.iter().map(|seed| seed.as_slice()).collect();
    let owner = Pubkey::new_from_array(program_id.bytes);
    Pubkey::try_find_program_address(&parts, &owner).map(
        |(key, bump)| (Key32 { bytes: key.to_bytes() }, bump),
    )
}

/// What checking a slot against its derived address returns: the address and its
/// bump seed where the slot sits at it, `AddressMismatch` where it does not or
/// where no address can be derived.
pub open spec fn seed_outcome(
    derived: Option<(Seq<u8>, u8)>,
    address: Seq<u8>,
    r: Result<(Key32, u8), RegistryError>,
) -> bool {
    match derived {
        Some((key, bump)) => if key == address {
            r matches Ok((k, b)) && k@ == key && b == bump
        } else {
            r == Err::<(Key32, u8), RegistryError>(RegistryError::AddressMismatch)
        },
        None => r == Err::<(Key32, u8), RegistryError>(RegistryError::AddressMismatch),
    }
}

/// Decides on a derived address: the function that `assert_seed` hands the
/// ledger's answer to.
pub fn check_derived(derived: Option<(Key32, u8)>, address: &Key32) -> (r: Result<
    (Key32, u8),
    RegistryError,
>)
    ensures
        seed_outcome(
            match derived {
                Some((k, b)) => Some((k@, b)),
                None => None,
            },
            address@,
            r,
        ),
{
    match derived {
        Some((key, bump)) => {
            if key.same(address) {
                Ok((key, bump))
            } else {
                Err(RegistryError::AddressMismatch)
            }
        },
        None => Err(RegistryError::AddressMismatch),
    }
}

/// Checks on a key.
pub trait PubkeyHelpers {
    /// The bytes of the key.
    spec fn key_bytes(&self) -> Seq<u8>;

    /// Succeeds exactly when the key equals `a`.
    fn assert_match(&self, a: &Key32) -> (r: Result<(), RegistryError>)
        ensures
            r == (if self.key_bytes() == a@ {
                Ok::<(), RegistryError>(())
            } else {
                Err::<(), RegistryError>(RegistryError::AddressMismatch)
            }),
    ;
}

impl PubkeyHelpers for Key32 {
    open spec fn key_bytes(&self) -> Seq<u8> {
        self@
    }

    fn assert_match(&self, a: &Key32) -> (r: Result<(), RegistryError>) {
        if !self.same(a) {
            return Err(RegistryError::AddressMismatch);
        }
        Ok(())
    }
}

/// Checks on a slot's identity.
pub trait AccountInfoHelpers {
    /// The slot's address.
    spec fn address(&self) -> Seq<u8>;

    /// The key of the slot's owner.
    spec fn holder(&self) -> Seq<u8>;

    /// Whether the slot signed the request.
    spec fn signed(&self) -> bool;

    /// Succeeds exactly when the slot's address is `a`.
    fn assert_key_match(&self, a: &Key32) -> (r: Result<(), RegistryError>)
        ensures
            r == (if self.address() == a@ {
                Ok::<(), RegistryError>(())
            } else {
                Err::<(), RegistryError>(RegistryError::AddressMismatch)
            }),
    ;

    /// Succeeds exactly when the slot is owned by `a`.
    fn assert_owner(&self, a: &Key32) -> (r: Result<(), RegistryError>)
        ensures
            r == (if self.holder() == a@ {
                Ok::<(), RegistryError>(())
            } else {
                Err::<(), RegistryError>(RegistryError::OwnershipMismatch)
            }),
    ;

    /// Succeeds exactly when the slot signed.
    fn assert_signer(&self) -> (r: Result<(), RegistryError>)
        ensures
            r == (if self.signed() {
                Ok::<(), RegistryError>(())
            } else {
                Err::<(), RegistryError>(RegistryError::MissingRequiredSignature)
            }),
    ;

    /// Succeeds exactly when the slot sits at the address derived from `seed` for
    /// `program_id`, and then returns that address with its bump seed.
    fn assert_seed(&self, program_id: &Key32, seed: &Vec<Vec<u8>>) -> (r: Result<
        (Key32, u8),
        RegistryError,
    >)
        ensures
            seed_outcome(derived_address(seed.deep_view(), program_id@), self.address(), r),
    ;
}

impl AccountInfoHelpers for Slot {
    open spec fn address(&self) -> Seq<u8> {
        self.key@
    }

    open spec fn holder(&self) -> Seq<u8> {
        self.owner@
    }

    open spec fn signed(&self) -> bool {
        self.is_signer
    }

    fn assert_key_match(&self, a: &Key32) -> (r: Result<(), RegistryError>) {
        self.key.assert_match(a)
    }

    fn assert_owner(&self, a: &Key32) -> (r: Result<(), RegistryError>) {
        match self.owner.assert_match(a) {
            Ok(()) => Ok(()),
            Err(_) => Err(RegistryError::OwnershipMismatch),
        }
    }

    fn assert_signer(&self) -> (r: Result<(), RegistryError>) {
        if !self.is_signer {
            return Err(RegistryError::MissingRequiredSignature);
        }
        Ok(())
    }

    fn assert_seed(&self, program_id: &Key32, seed: &Vec<Vec<u8>>) -> (r: Result<
        (Key32, u8),
        RegistryError,
    >) {
        let derived = find_address(seed, program_id);
        check_derived(derived, &self.key)
    }
}

/// Passing a result on unchanged at a point where a failure is worth noting.
pub trait ResultExt<T, E>: Sized {
    /// Returns the result as it is.
    fn error_log(self, message: &str) -> (r: Self)
        ensures
            r == self,
    ;
}

impl<T, E> ResultExt<T, E> for Result<T, E> {
    fn error_log(self, message: &str) -> (r: Self) {
        match self {
            Ok(v) => Ok(v),
            Err(e) => Err(e),
        }
    }
}

/// Turning an absent value into a failure.
pub trait OptionExt<T>: Sized {
    /// The value, where there is one.
    spec fn held(self) -> Option<T>;

    /// `Ok` of the value where there is one, `MissingValue` where there is none.
    fn error_log(self, message: &str) -> (r: Result<T, RegistryError>)
        ensures
            r == (match self.held() {
                Some(v) => Ok::<T, RegistryError>(v),
                None => Err::<T, RegistryError>(RegistryError::MissingValue),
            }),
    ;
}

impl<T> OptionExt<T> for Option<T> {
    open spec fn held(self) -> Option<T> {
        self
    }

    fn error_log(self, message: &str) -> (r: Result<T, RegistryError>) {
        match self {
            Some(v) => Ok(v),
            None => Err(RegistryError::MissingValue),
        }
    }
}

} // verus!
