//! Table-file verification by magic number.
//!
//! The store's table files end in an 8-byte magic value, encoded
//! little-endian. Checking it costs a single small read at the end of a
//! file and is the cheapest strong signal of structural corruption
//! available without a full content hash.

use vstd::bytes::{spec_u64_from_le_bytes, u64_from_le_bytes};
use vstd::prelude::*;

verus! {

/// The magic number that identifies a valid table file, located in the
/// final 8 bytes of the file (9863518390377041911 in decimal).
pub const ROCKSDB_MAGIC_NUMBER: u64 = 0x88e241b785f4cff7;

/// What it means for the final bytes of a file to carry a valid footer:
/// exactly 8 bytes are there, and read little-endian they equal the magic
/// number. A file shorter than 8 bytes can never be valid.
pub open spec fn valid_sst_tail(tail: Seq<u8>) -> bool {
    &&& tail.len() == 8
    &&& spec_u64_from_le_bytes(tail) == ROCKSDB_MAGIC_NUMBER
}

/// Verifies whether a table file is structurally valid from its final
/// bytes.
///
/// `tail` holds the last `min(8, file size)` bytes of the file, so a file
/// under 8 bytes hands in fewer than 8 and is reported invalid (the check
/// fails closed).
pub fn verify_sst_magic_number(tail: &[u8]) -> (r: bool)
    ensures
        r == valid_sst_tail(tail@),
{
    if tail.len() != 8 {
        return false;
    }
    let magic: u64 = u64_from_le_bytes(tail);
    magic == ROCKSDB_MAGIC_NUMBER
}

} // verus!
