use vstd::prelude::*;

use crate::hands::NUM_HANDS;

verus! {

/// Why a stored equity table was rejected by the loader.
#[derive(Clone, Copy, Debug, PartialEq, Eq, Structural)]
pub enum TableError {
    /// The bytes do not decode to a table of numbers at all.
    Malformed,
    /// The bytes decode to a table of the wrong size.
    WrongLength,
    /// The table fails the combinatorial identities a correct equity table
    /// satisfies.
    Corrupt,
}

/// The storage format of an equity table holding the values `v`: the number
/// of entries in eight little-endian bytes, then each entry in four
/// little-endian bytes (an entry `x` is stored as the unsigned 32-bit value
/// with `x`'s bit pattern).
pub open spec fn spec_table_bytes(v: Seq<i32>) -> Seq<u8> {
    vstd::bytes::spec_u64_to_le_bytes(v.len() as u64) + v.map_values(
        |x: i32| vstd::bytes::spec_u32_to_le_bytes(x as u32),
    ).flatten()
}

/// Relies on bincode::serialize, whose default configuration is fixint
/// little-endian with no size limit: a vector of 32-bit numbers is written
/// as its length in eight little-endian bytes followed by each element in
/// four little-endian bytes, and writing into a fresh byte vector does not
/// fail.
#[verifier::external_body]
fn bincode_encode_i32s(v: &Vec<i32>) -> (r: Vec<u8>)
    ensures
        r@ == spec_table_bytes(v@),
{
    bincode::serialize(v).unwrap()
}

/// Relies on bincode::deserialize, whose default configuration is fixint
/// little-endian with no size limit and with trailing bytes allowed: it
/// reads an eight-byte length, then that many four-byte elements, failing
/// exactly when the input is too short for that.
#[verifier::external_body]
fn bincode_decode_i32s(bytes: &[u8]) -> (r: Option<Vec<i32>>)
    ensures
        r is None ==> forall|vs: Seq<i32>|
            !(#[trigger] spec_table_bytes(vs)).is_prefix_of(bytes@),
        r matches Some(w) ==> forall|vs: Seq<i32>|
            (#[trigger] spec_table_bytes(vs)).is_prefix_of(bytes@) ==> w@ == vs,
        r matches Some(w) ==> spec_table_bytes(w@).is_prefix_of(bytes@),
{
    match bincode::deserialize::<Vec<i32>>(bytes) {
        Ok(v) => Some(v),
        Err(_) => None,
    }
}

/// Serializes an equity table for storage, in the format of
/// `spec_table_bytes`.
pub fn table_to_bytes(v: &Vec<i32>) -> (r: Vec<u8>)
    ensures
        r@ == spec_table_bytes(v@),
{
    bincode_encode_i32s(v)
}

/// Decodes a stored equity table and rejects one of the wrong size. Every
/// byte string that begins with the encoding of a table of the right size
/// is accepted and yields exactly that table; anything else is rejected
/// with the reason.
pub fn table_from_bytes(bytes: &[u8]) -> (r: Result<Vec<i32>, TableError>)
    ensures
        forall|vs: Seq<i32>|
            (#[trigger] spec_table_bytes(vs)).is_prefix_of(bytes@) && vs.len() == NUM_HANDS
                * NUM_HANDS ==> (r matches Ok(w) && w@ == vs),
        r matches Ok(w) ==> spec_table_bytes(w@).is_prefix_of(bytes@) && w@.len() == NUM_HANDS
            * NUM_HANDS,
        r matches Err(e) && e == TableError::Malformed ==> forall|vs: Seq<i32>|
            !(#[trigger] spec_table_bytes(vs)).is_prefix_of(bytes@),
        r matches Err(e) && e == TableError::WrongLength ==> exists|vs: Seq<i32>|
            (#[trigger] spec_table_bytes(vs)).is_prefix_of(bytes@) && vs.len() != NUM_HANDS
                * NUM_HANDS,
{
    match bincode_decode_i32s(bytes) {
        None => Err(TableError::Malformed),
        Some(v) => {
            if v.len() == NUM_HANDS * NUM_HANDS {
                Ok(v)
            } else {
                Err(TableError::WrongLength)
            }
        },
    }
}

/// Loads a stored equity table: decodes the bytes and accepts the result
/// only when it passes the combinatorial checks of
/// `crate::equity::spec_valid_table`. A solve is meaningless over anything
/// else, so a missing or corrupt table must fail here, before any
/// computation begins.
pub fn load_equity_table(bytes: &[u8]) -> (r: Result<Vec<i32>, TableError>)
    ensures
        r matches Ok(w) ==> spec_table_bytes(w@).is_prefix_of(bytes@)
            && crate::equity::spec_valid_table(w@),
        forall|vs: Seq<i32>|
            (#[trigger] spec_table_bytes(vs)).is_prefix_of(bytes@)
                && crate::equity::spec_valid_table(vs) ==> (r matches Ok(w) && w@ == vs),
{
    match table_from_bytes(bytes) {
        Err(e) => Err(e),
        Ok(v) => {
            if crate::equity::validate_equity_table(&v) {
                Ok(v)
            } else {
                Err(TableError::Corrupt)
            }
        },
    }
}

} // verus!
