//! Reading files of a limited size.
//!
//! A file can grow while it is read, so its length is checked before the reading and again
//! after it, and never more than one byte above the limit is read.

use vstd::prelude::*;

verus! {

/// A file has more bytes than it may have.
#[derive(Debug, Clone, Copy, PartialEq, Eq, Structural)]
pub struct TooLarge;

/// Checks the length of a file before it is read.
pub fn check_length(length: u64, limit: usize) -> (result: Result<(), TooLarge>)
    ensures
        result is Ok <==> length <= limit,
{
    if length > limit as u64 {
        Err(TooLarge)
    } else {
        Ok(())
    }
}

/// How many bytes of a file are read at most.
pub open spec fn budget(limit: usize) -> nat {
    if limit < u64::MAX {
        (limit + 1) as nat
    } else {
        u64::MAX as nat
    }
}

/// How many bytes of a file are read at most: one more than it may have, where there is such a
/// number.
pub fn read_budget(limit: usize) -> (result: u64)
    ensures
        result == budget(limit),
{
    if (limit as u64) < u64::MAX {
        limit as u64 + 1
    } else {
        u64::MAX
    }
}

/// Checks the bytes that were read.
pub fn check_bytes(bytes: Vec<u8>, limit: usize) -> (result: Result<Vec<u8>, TooLarge>)
    ensures
        match result {
            Ok(checked) => bytes@.len() <= limit && checked@ == bytes@,
            Err(_) => bytes@.len() > limit,
        },
{
    if bytes.len() > limit {
        Err(TooLarge)
    } else {
        Ok(bytes)
    }
}

/// Whatever the length of a file was said to be: of a file that has at most `limit` bytes all
/// are read, and of a longer one so many that it is found to be too large.
pub proof fn budget_tells_large_files_apart(file_bytes: nat, limit: usize)
    requires
        file_bytes <= u64::MAX,
    ensures
        ({
            let read = if file_bytes <= budget(limit) {
                file_bytes
            } else {
                budget(limit)
            };
            &&& read > limit <==> file_bytes > limit
            &&& file_bytes <= limit ==> read == file_bytes
        }),
{
}

} // verus!
