//! The per-file pseudorandom content: block-addressed, regenerated on demand.

use vstd::bytes::{spec_u64_to_le_bytes, u64_to_le_bytes};
use vstd::prelude::*;

verus! {

/// Size of one generated block: the length of a SHA-1 digest.
pub const BLOCK_SIZE: u64 = 20;

/// Size of every regular file, in bytes (one mebibyte).
pub const FILE_SIZE: u64 = 1_048_576;

/// The ASCII bytes of `filesalt`, read as a little-endian integer.
pub const FILE_SALT: u64 = 0x746c_6173_656c_6966;

/// The SHA-1 digest of a byte sequence.
pub uninterp spec fn sha1_digest(data: Seq<u8>) -> Seq<u8>;

/// Relies on `sha1::Sha1::from` followed by `digest().bytes()`: the 20-byte
/// SHA-1 digest of `data`, which depends on those bytes alone.
#[verifier::external_body]
fn sha1_of(data: &[u8]) -> (r: [u8; 20])
    ensures
        r@ == sha1_digest(data@),
{
    sha1::Sha1::from(data).digest().bytes()
}

/// The seed of one file: the root seed mixed with the inode and the salt.
pub open spec fn file_seed(root_seed: u64, inode: u64) -> u64 {
    root_seed ^ inode ^ FILE_SALT
}

/// What is hashed for one block: the file seed, then the block number, both
/// little-endian.
pub open spec fn block_input(seed: u64, block_no: u64) -> Seq<u8> {
    spec_u64_to_le_bytes(seed) + spec_u64_to_le_bytes(block_no)
}

/// The bytes of block `block_no` of the file with seed `seed`.
pub open spec fn block(seed: u64, block_no: u64) -> Seq<u8> {
    sha1_digest(block_input(seed, block_no))
}

/// The byte at position `pos` of the endless stream of the file with seed `seed`.
pub open spec fn byte_at(seed: u64, pos: nat) -> u8 {
    block(seed, (pos / BLOCK_SIZE as nat) as u64)[(pos % BLOCK_SIZE as nat) as int]
}

/// How many bytes a read of `size` bytes at `offset` returns from content of
/// `limit` bytes: none from a negative offset or one at or past the end, and
/// never past the end.
pub open spec fn clamped_len(offset: int, size: int, limit: int) -> int {
    if offset < 0 || offset >= limit {
        0
    } else if offset + size > limit {
        limit - offset
    } else {
        size
    }
}

/// The bytes of a regular file with seed `seed` at `[offset, offset + size)`,
/// cut at the file's size.
pub open spec fn data_range(seed: u64, offset: int, size: int) -> Seq<u8> {
    Seq::new(
        clamped_len(offset, size, FILE_SIZE as int) as nat,
        |j: int| byte_at(seed, (offset + j) as nat),
    )
}

/// Mix the root seed with a file's inode into the seed of that file.
pub fn generate_file_seed(root_seed: u64, inode: u64) -> (r: u64)
    ensures
        r == file_seed(root_seed, inode),
{
    root_seed ^ inode ^ FILE_SALT
}

/// One block of content of the file with seed `seed`.
pub fn generate_block_data(seed: u64, block_no: u64) -> (r: [u8; 20])
    ensures
        r@ == block(seed, block_no),
{
    let mut input = u64_to_le_bytes(seed);
    let mut tail = u64_to_le_bytes(block_no);
    input.append(&mut tail);
    sha1_of(input.as_slice())
}

/// The bytes at `[offset, offset + size)` of the regular file with seed `seed`,
/// cut at the file's size: empty for a negative offset or one at or past the end.
pub fn read_file_data(seed: u64, offset: i64, size: u32) -> (r: Vec<u8>)
    ensures
        r@ == data_range(seed, offset as int, size as int),
{
    if offset < 0 || offset as u64 >= FILE_SIZE {
        let empty: Vec<u8> = Vec::new();
        assert(empty@ =~= data_range(seed, offset as int, size as int));
        return empty;
    }
    let off = offset as u64;
    let len: u64 = if off + size as u64 > FILE_SIZE {
        FILE_SIZE - off
    } else {
        size as u64
    };
    let first_block = off / BLOCK_SIZE;
    let inside = off % BLOCK_SIZE;
    // Enough blocks to cover the range, with up to one block of slack.
    let blocks_count = (len + 2 * BLOCK_SIZE) / BLOCK_SIZE;
    assert(off == first_block * 20 + inside);
    assert(blocks_count * 20 > inside + len) by (nonlinear_arith)
        requires
            blocks_count == (len + 40) / 20,
            inside < 20,
    ;
    let mut data: Vec<u8> = Vec::new();
    let mut k: u64 = 0;
    while k < blocks_count
        invariant
            blocks_count <= 52430,
            first_block < 52429,
            k <= blocks_count,
            data@.len() == k * 20,
            forall|i: int|
                0 <= i < data@.len() ==> #[trigger] data@[i] == byte_at(
                    seed,
                    (first_block * 20 + i) as nat,
                ),
        decreases blocks_count - k,
    {
        let b = generate_block_data(seed, first_block + k);
        let mut t: usize = 0;
        while t < 20
            invariant
                k < blocks_count,
                blocks_count <= 52430,
                first_block < 52429,
                t <= 20,
                b@ == block(seed, (first_block + k) as u64),
                data@.len() == k * 20 + t,
                forall|i: int|
                    0 <= i < data@.len() ==> #[trigger] data@[i] == byte_at(
                        seed,
                        (first_block * 20 + i) as nat,
                    ),
            decreases 20 - t,
        {
            let ghost pos: nat = (first_block * 20 + k * 20 + t) as nat;
            assert(pos / 20 == first_block + k && pos % 20 == t) by (nonlinear_arith)
                requires
                    pos == first_block * 20 + k * 20 + t,
                    t < 20,
            ;
            data.push(b[t]);
            t += 1;
        }
        k += 1;
    }
    let mut r: Vec<u8> = Vec::new();
    let mut j: u64 = 0;
    while j < len
        invariant
            j <= len,
            len <= FILE_SIZE,
            inside < 20,
            inside + len < data@.len(),
            off == first_block * 20 + inside,
            r@.len() == j,
            forall|i: int|
                0 <= i < data@.len() ==> #[trigger] data@[i] == byte_at(
                    seed,
                    (first_block * 20 + i) as nat,
                ),
            forall|i: int| 0 <= i < j ==> #[trigger] r@[i] == byte_at(seed, (off + i) as nat),
        decreases len - j,
    {
        r.push(data[(inside + j) as usize]);
        j += 1;
    }
    assert(r@ =~= data_range(seed, offset as int, size as int));
    r
}

} // verus!
