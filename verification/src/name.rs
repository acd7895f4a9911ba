use crate::error::RegistryError;
use crate::state::constants::MAX_NAME_LENGTH;
use vstd::prelude::*;

verus! {

/// The byte that a character leaves in a normalized name: ASCII digits and
/// lower-case letters stay, upper-case letters are lowered, all else is dropped.
pub open spec fn normal_byte(c: char) -> Option<u8> {
    let v = c as u32;
    if 48 <= v <= 57 || 97 <= v <= 122 {
        Some(v as u8)
    } else if 65 <= v <= 90 {
        Some((v + 32) as u8)
    } else {
        None
    }
}

/// The normalized form of a name: what its characters leave, in their order.
pub open spec fn normalize_spec(raw: Seq<char>) -> Seq<u8> {
    raw.filter_map(|c: char| normal_byte(c))
}

/// The twelve bytes under which a normalized name is stored: the name, then
/// underscores.
pub open spec fn fixed_name(normalized: Seq<u8>) -> Seq<u8> {
    normalized + Seq::new((12 - normalized.len()) as nat, |i: int| 95u8)
}

/// The byte that a character leaves in a normalized name.
pub fn normalize_char(c: char) -> (r: Option<u8>)
    ensures
        r == normal_byte(c),
{
    let v = c as u32;
    if (48 <= v && v <= 57) || (97 <= v && v <= 122) {
        Some(v as u8)
    } else if 65 <= v && v <= 90 {
        Some((v + 32) as u8)
    } else {
        None
    }
}

/// Strips the characters that are not ASCII letters or digits and lowers the rest.
pub fn normalize(raw: &str) -> (out: Vec<u8>)
    ensures
        out@ == normalize_spec(raw@),
{
    let mut out: Vec<u8> = Vec::new();
    let ghost keep = |c: char| normal_byte(c);
    proof {
        vstd::string::axiom_spec_iter(raw);
    }
    for c in it: raw.chars()
        invariant
            it.seq() == raw@,
            keep == (|c: char| normal_byte(c)),
            out@ == raw@.take(it.index() as int).filter_map(keep),
    {
        proof {
            raw@.lemma_filter_map_take_succ(keep, it.index() as int);
        }
        match normalize_char(c) {
            Some(b) => out.push(b),
            None => {},
        }
    }
    assert(raw@.take(raw@.len() as int) =~= raw@);
    out
}

/// The twelve bytes under which a normalized name of at most twelve bytes is stored.
pub fn pad_name(normalized: &Vec<u8>) -> (out: Vec<u8>)
    requires
        normalized@.len() <= 12,
    ensures
        out@ == fixed_name(normalized@),
        out@.len() == 12,
{
    let n = normalized.len();
    let mut out: Vec<u8> = Vec::new();
    let mut i: usize = 0;
    while i < 12
        invariant
            i <= 12,
            n == normalized@.len(),
            n <= 12,
            out@.len() == i,
            forall|j: int| 0 <= j < i ==> out@[j] == fixed_name(normalized@)[j],
        decreases 12 - i,
    {
        if i < n {
            out.push(normalized[i]);
        } else {
            out.push(95u8);
        }
        i += 1;
    }
    assert(out@ =~= fixed_name(normalized@));
    out
}

/// The bytes under which a raw name is stored, or `InvalidNameLength` where its
/// normalized form is empty or longer than twelve bytes.
pub open spec fn stored_name_spec(raw: Seq<char>) -> Result<Seq<u8>, RegistryError> {
    let normalized = normalize_spec(raw);
    if normalized.len() == 0 || normalized.len() > 12 {
        Err(RegistryError::InvalidNameLength)
    } else {
        Ok(fixed_name(normalized))
    }
}

/// Normalizes a raw name, checks its length and pads it to twelve bytes.
pub fn stored_name(raw: &str) -> (r: Result<Vec<u8>, RegistryError>)
    ensures
        match stored_name_spec(raw@) {
            Ok(bytes) => r matches Ok(v) && v@ == bytes && v@.len() == 12,
            Err(e) => r matches Err(f) && f == e,
        },
{
    let normalized = normalize(raw);
    if normalized.len() > MAX_NAME_LENGTH || normalized.len() < 1 {
        return Err(RegistryError::InvalidNameLength);
    }
    Ok(pad_name(&normalized))
}

/// Raw names with one normalized form are stored under the same bytes.
pub proof fn law_same_normal_form_same_bytes(a: Seq<char>, b: Seq<char>)
    requires
        normalize_spec(a) == normalize_spec(b),
    ensures
        stored_name_spec(a) == stored_name_spec(b),
{
}

} // verus!
