//! The version stamp of the binary interface.
//!
//! The stamp folds a hash that stands for the interface's source files. User side and
//! kernel side refuse to talk to each other unless they carry the same stamp.

use vstd::prelude::*;

verus! {

/// Where the hash starts.
pub const FNV_OFFSET: u64 = 0xcbf2_9ce4_8422_2325;

/// What the hash is multiplied by for each byte.
pub const FNV_PRIME: u64 = 0x0000_0100_0000_01b3;

/// Stands for the state of the interface. The value is set by hand: `stamp` computes the
/// hash of a source tree, and a release that changes the interface puts it here, with its
/// folded form in `AI_ABI_VERSION`.
pub const AI_ABI_SOURCE_HASH: u64 = 0x6b33_4845_5241_0001;

/// The version of the interface: the source hash, folded.
pub const AI_ABI_VERSION: u32 = 0x3972_4844;

/// One step of the hash.
pub open spec fn hash_step(hash: u64, byte: u8) -> u64 {
    (hash ^ (byte as u64)).wrapping_mul(FNV_PRIME)
}

/// The hash after some bytes.
pub open spec fn hash_of(hash: u64, bytes: Seq<u8>) -> u64
    decreases bytes.len(),
{
    if bytes.len() == 0 {
        hash
    } else {
        hash_step(hash_of(hash, bytes.drop_last()), bytes.last())
    }
}

/// The hash after one source file: its path, a zero byte, its contents.
pub open spec fn file_hash(hash: u64, path: Seq<u8>, contents: Seq<u8>) -> u64 {
    hash_of(hash_of(hash_of(hash, path), seq![0u8]), contents)
}

/// The hash after the first `count` of some files.
pub open spec fn files_hash(paths: Seq<Seq<u8>>, contents: Seq<Seq<u8>>, count: int) -> u64
    decreases count,
{
    if count <= 0 {
        FNV_OFFSET
    } else {
        file_hash(
            files_hash(paths, contents, count - 1),
            paths[count - 1],
            contents[count - 1],
        )
    }
}

/// The version that a source hash folds to. It is never zero.
pub open spec fn version_of(hash: u64) -> u32 {
    let folded = (hash ^ (hash >> 32)) as u32;
    if folded == 0 {
        1
    } else {
        folded
    }
}

/// Hashing in two goes is hashing in one.
pub proof fn hash_joins(hash: u64, first: Seq<u8>, second: Seq<u8>)
    ensures
        hash_of(hash_of(hash, first), second) == hash_of(hash, first + second),
    decreases second.len(),
{
    if second.len() == 0 {
        assert(first + second =~= first);
    } else {
        hash_joins(hash, first, second.drop_last());
        assert((first + second).drop_last() =~= first + second.drop_last());
    }
}

/// The version constant is the folded source hash.
pub proof fn version_matches_hash()
    ensures
        AI_ABI_VERSION == version_of(AI_ABI_SOURCE_HASH),
{
    assert((0x6b33_4845_5241_0001u64 ^ (0x6b33_4845_5241_0001u64 >> 32)) as u32 == 0x3972_4844u32)
        by (bit_vector);
}

/// The hash after some bytes.
pub fn hash_bytes(hash: u64, bytes: &[u8]) -> (r: u64)
    ensures
        r == hash_of(hash, bytes@),
{
    let mut state: u64 = hash;
    let mut i: usize = 0;
    while i < bytes.len()
        invariant
            i <= bytes@.len(),
            state == hash_of(hash, bytes@.take(i as int)),
        decreases bytes@.len() - i,
    {
        proof {
            let upto = bytes@.take(i + 1);
            assert(upto.drop_last() =~= bytes@.take(i as int));
            assert(upto.last() == bytes@[i as int]);
        }
        state = (state ^ (bytes[i] as u64)).wrapping_mul(FNV_PRIME);
        i = i + 1;
    }
    assert(bytes@.take(i as int) =~= bytes@);
    state
}

/// The hash after one source file: its path, a zero byte, its contents.
pub fn hash_file(hash: u64, path: &[u8], contents: &[u8]) -> (r: u64)
    ensures
        r == file_hash(hash, path@, contents@),
{
    let zero: Vec<u8> = vec![0];
    let named: u64 = hash_bytes(hash, path);
    assert(zero@ =~= seq![0u8]);
    let split: u64 = hash_bytes(named, &zero);
    hash_bytes(split, contents)
}

/// The hash of all source files, given as pairs of path and contents.
pub fn source_hash(files: &[(Vec<u8>, Vec<u8>)]) -> (r: u64)
    ensures
        r == files_hash(
            Seq::new(files@.len(), |i: int| files@[i].0@),
            Seq::new(files@.len(), |i: int| files@[i].1@),
            files@.len() as int,
        ),
{
    let ghost paths = Seq::new(files@.len(), |i: int| files@[i].0@);
    let ghost contents = Seq::new(files@.len(), |i: int| files@[i].1@);
    let mut hash: u64 = FNV_OFFSET;
    let mut i: usize = 0;
    while i < files.len()
        invariant
            i <= files@.len(),
            paths == Seq::new(files@.len(), |i: int| files@[i].0@),
            contents == Seq::new(files@.len(), |i: int| files@[i].1@),
            hash == files_hash(paths, contents, i as int),
        decreases files@.len() - i,
    {
        hash = hash_file(hash, &files[i].0, &files[i].1);
        i = i + 1;
    }
    hash
}

/// The version that a source hash folds to.
pub fn abi_version(hash: u64) -> (r: u32)
    ensures
        r == version_of(hash),
        r != 0,
{
    let folded: u32 = (hash ^ (hash >> 32)) as u32;
    if folded == 0 {
        1
    } else {
        folded
    }
}


/// A step mixes a byte in and multiplies by the prime, modulo two to the power of 64.
pub proof fn hash_multiplies_after_mixing(hash: u64, byte: u8)
    ensures
        hash_step(hash, byte) == (hash ^ (byte as u64)) * 0x100_0000_01b3 % 0x1_0000_0000_0000_0000,
{
}

/// A file is hashed as its path, a zero byte and its contents in one go.
pub proof fn file_is_hashed_in_one_go(hash: u64, path: Seq<u8>, contents: Seq<u8>)
    ensures
        file_hash(hash, path, contents) == hash_of(hash, path + seq![0u8] + contents),
{
    hash_joins(hash, path, seq![0u8]);
    hash_joins(hash, path + seq![0u8], contents);
}

} // verus!
