//! The filesystem service: lookup, attributes, reads and listings over a
//! fixed seed.

use crate::content::{
    block_input, clamped_len, data_range, file_seed, generate_file_seed, read_file_data, FILE_SALT,
    FILE_SIZE,
};
use vstd::bytes::{lemma_auto_spec_u64_to_from_le_bytes, spec_u64_from_le_bytes};
use crate::dir::{entries_view, list_entries, page, DirEntry};
use crate::inode::{
    attributes_of, child_inode, entity_of, filename_to_inode, inode_to_file_attr, is_directory,
    resolve, Entity, FileAttributes, FileKind, META_DIR_INODE, ROOT_INODE, SEED_FILE_INODE,
};
use vstd::prelude::*;

verus! {

/// Why a request fails.
#[derive(Clone, Copy, Debug, PartialEq, Eq, Structural)]
pub enum FsError {
    /// The inode or name denotes nothing that the request applies to.
    NotFound,
}

/// A structure representing a mounted instance of PlentyFS.
pub struct PlentyFS {
    /// Initial value of our bespoke RNG.
    seed: u64,
}

/// The lowercase hexadecimal digit of `d`, as an ASCII byte.
pub open spec fn hex_byte(d: nat) -> u8 {
    if d < 10 {
        (48 + d) as u8
    } else {
        (87 + d) as u8
    }
}

/// The lowercase hexadecimal numeral of `n`, padded with zeros to at least
/// `width` digits.
pub open spec fn hex_text(n: nat, width: nat) -> Seq<u8>
    decreases n + width,
{
    if n < 16 && width <= 1 {
        seq![hex_byte(n)]
    } else {
        hex_text(n / 16, if width > 0 {
            (width - 1) as nat
        } else {
            0
        }).push(hex_byte(n % 16))
    }
}

/// The content of the seed file: the seed in at least eight lowercase
/// hexadecimal digits, then a newline.
pub open spec fn seed_text(seed: u64) -> Seq<u8> {
    hex_text(seed as nat, 8).push(10u8)
}

/// The bytes of `text` at `[offset, offset + size)`, cut at its end.
pub open spec fn text_range(text: Seq<u8>, offset: int, size: int) -> Seq<u8> {
    Seq::new(clamped_len(offset, size, text.len() as int) as nat, |j: int| text[offset + j])
}

/// What a read of `size` bytes at `offset` of inode `ino` returns.
pub open spec fn read_result(seed: u64, ino: u64, offset: int, size: int) -> Result<
    Seq<u8>,
    FsError,
> {
    match entity_of(ino) {
        Some(Entity::MetaFile(_)) => if ino == SEED_FILE_INODE {
            Ok(text_range(seed_text(seed), offset, size))
        } else {
            Err(FsError::NotFound)
        },
        Some(Entity::DataFile(_)) => Ok(data_range(file_seed(seed, ino), offset, size)),
        _ => Err(FsError::NotFound),
    }
}

/// Append the lowercase hexadecimal numeral of `n`, padded to `width` digits, to `out`.
fn push_hex(n: u64, width: u64, out: &mut Vec<u8>)
    ensures
        final(out)@ == old(out)@ + hex_text(n as nat, width as nat),
    decreases n + width,
{
    if n >= 16 || width > 1 {
        let w: u64 = if width > 0 {
            width - 1
        } else {
            0
        };
        push_hex(n / 16, w, out);
    }
    let d = (n % 16) as u8;
    let b: u8 = if d < 10 {
        48 + d
    } else {
        87 + d
    };
    out.push(b);
    assert(final(out)@ =~= old(out)@ + hex_text(n as nat, width as nat));
}

/// The content of the seed file of a mount with seed `seed`.
pub fn seed_file_text(seed: u64) -> (r: Vec<u8>)
    ensures
        r@ == seed_text(seed),
{
    let mut r: Vec<u8> = Vec::new();
    push_hex(seed, 8, &mut r);
    r.push(10);
    assert(r@ =~= seed_text(seed));
    r
}

impl PlentyFS {
    /// The seed of this instance.
    pub closed spec fn root_seed(&self) -> u64 {
        self.seed
    }

    /// Create new instance with a given seed.
    pub fn new(seed: u64) -> (r: PlentyFS)
        ensures
            r.root_seed() == seed,
    {
        PlentyFS { seed }
    }

    /// The attributes of the entry `name` of directory `parent`.
    pub fn lookup(&self, parent: u64, name: &str) -> (r: Result<FileAttributes, FsError>)
        ensures
            match child_inode(parent, name@) {
                Some(ino) => attributes_of(ino) matches Some(a) && r == Ok::<
                    FileAttributes,
                    FsError,
                >(a),
                None => r == Err::<FileAttributes, FsError>(FsError::NotFound),
            },
    {
        if parent != ROOT_INODE && parent != META_DIR_INODE {
            return Err(FsError::NotFound);
        }
        match filename_to_inode(parent, name) {
            Some(ino) => match inode_to_file_attr(ino) {
                Some(attr) => Ok(attr),
                None => Err(FsError::NotFound),
            },
            None => Err(FsError::NotFound),
        }
    }

    /// The attributes of inode `ino`: those of a directory for the two
    /// directories, those of a regular file of the files' size for the
    /// metadata and data ranges; `NotFound` for every other inode.
    pub fn getattr(&self, ino: u64) -> (r: Result<FileAttributes, FsError>)
        ensures
            r is Ok <==> entity_of(ino) is Some,
            r matches Ok(a) ==> attributes_of(ino) == Some(a) && a.ino == ino,
            r matches Ok(a) ==> (a.kind == FileKind::Directory <==> is_directory(
                ino,
            )),
            r matches Ok(a) ==> a.size == if is_directory(ino) {
                0
            } else {
                FILE_SIZE
            },
            r is Err ==> r == Err::<FileAttributes, FsError>(FsError::NotFound),
    {
        match inode_to_file_attr(ino) {
            Some(attr) => Ok(attr),
            None => Err(FsError::NotFound),
        }
    }

    /// `size` bytes at `offset` of inode `ino`, cut at the end of its content.
    pub fn read(&self, ino: u64, offset: i64, size: u32) -> (r: Result<Vec<u8>, FsError>)
        ensures
            match r {
                Ok(v) => read_result(self.root_seed(), ino, offset as int, size as int) == Ok::<
                    Seq<u8>,
                    FsError,
                >(v@),
                Err(e) => read_result(self.root_seed(), ino, offset as int, size as int) == Err::<
                    Seq<u8>,
                    FsError,
                >(e),
            },
    {
        match resolve(ino) {
            Some(Entity::MetaFile(_)) => {
                if ino != SEED_FILE_INODE {
                    return Err(FsError::NotFound);
                }
                let text = seed_file_text(self.seed);
                let len = text.len();
                let mut r: Vec<u8> = Vec::new();
                if offset < 0 || offset as u64 >= len as u64 {
                    assert(r@ =~= text_range(text@, offset as int, size as int));
                    return Ok(r);
                }
                let start = offset as usize;
                let end: usize = if size as u64 > (len - start) as u64 {
                    len
                } else {
                    start + size as usize
                };
                let mut i: usize = start;
                while i < end
                    invariant
                        text@ == seed_text(self.seed),
                        len == text@.len(),
                        start == offset,
                        end == if size as u64 > (len - start) as u64 {
                            len as int
                        } else {
                            start + size
                        },
                        start <= i <= end <= text@.len(),
                        r@ =~= text@.subrange(start as int, i as int),
                    decreases end - i,
                {
                    r.push(text[i]);
                    i += 1;
                }
                assert(r@ =~= text_range(text@, offset as int, size as int));
                Ok(r)
            },
            Some(Entity::DataFile(_)) => {
                let seed = generate_file_seed(self.seed, ino);
                Ok(read_file_data(seed, offset, size))
            },
            _ => Err(FsError::NotFound),
        }
    }

    /// At most `limit` entries of directory `ino`, from cursor `offset`.
    pub fn readdir(&self, ino: u64, offset: i64, limit: usize) -> (r: Result<
        Vec<DirEntry>,
        FsError,
    >)
        ensures
            r is Ok <==> is_directory(ino),
            r matches Ok(v) ==> entries_view(v@) == page(ino, offset as int, limit as int),
            r is Err ==> r == Err::<Vec<DirEntry>, FsError>(FsError::NotFound),
    {
        if ino != ROOT_INODE && ino != META_DIR_INODE {
            return Err(FsError::NotFound);
        }
        Ok(list_entries(ino, offset, limit))
    }
}

/// Reads are deterministic: two instances with the same seed answer a read of
/// the same inode, offset and size with the same result, whatever was read
/// before or in between.
pub proof fn lemma_read_deterministic(a: PlentyFS, b: PlentyFS, ino: u64, offset: int, size: int)
    requires
        a.root_seed() == b.root_seed(),
    ensures
        read_result(a.root_seed(), ino, offset, size) == read_result(
            b.root_seed(),
            ino,
            offset,
            size,
        ),
{
}

/// Reads of overlapping ranges agree on the overlap: a position covered by
/// two reads of the same inode holds the same byte in both results.
pub proof fn lemma_read_overlap(
    seed: u64,
    ino: u64,
    o1: int,
    n1: int,
    o2: int,
    n2: int,
    pos: int,
)
    requires
        read_result(seed, ino, o1, n1) is Ok,
        read_result(seed, ino, o2, n2) is Ok,
        o1 <= pos < o1 + read_result(seed, ino, o1, n1)->Ok_0.len(),
        o2 <= pos < o2 + read_result(seed, ino, o2, n2)->Ok_0.len(),
    ensures
        read_result(seed, ino, o1, n1)->Ok_0[pos - o1] == read_result(seed, ino, o2, n2)->Ok_0[pos
            - o2],
{
}

/// At the end of a data file: a read at the file's size is empty, and a read
/// that would pass the end returns exactly the bytes up to the end.
pub proof fn lemma_read_boundary(seed: u64, ino: u64, offset: int, n: int)
    requires
        entity_of(ino) matches Some(Entity::DataFile(_)),
        0 <= offset <= FILE_SIZE,
        0 <= n,
    ensures
        read_result(seed, ino, offset, n) is Ok,
        offset == FILE_SIZE ==> read_result(seed, ino, offset, n)->Ok_0.len() == 0,
        offset + n > FILE_SIZE ==> read_result(seed, ino, offset, n)->Ok_0.len() == FILE_SIZE
            - offset,
{
}

/// Two different seeds hash different bytes for every block of every file:
/// the per-file seeds differ, and they lead each block's hash input. (That
/// the contents then differ rests on the hash function.)
pub proof fn lemma_seeds_give_distinct_inputs(s1: u64, s2: u64, ino: u64, block_no: u64)
    requires
        s1 != s2,
    ensures
        file_seed(s1, ino) != file_seed(s2, ino),
        block_input(file_seed(s1, ino), block_no) != block_input(file_seed(s2, ino), block_no),
{
    assert(s1 ^ ino ^ FILE_SALT != s2 ^ ino ^ FILE_SALT) by (bit_vector)
        requires
            s1 != s2,
    ;
    let f1 = file_seed(s1, ino);
    let f2 = file_seed(s2, ino);
    lemma_auto_spec_u64_to_from_le_bytes();
    let a = block_input(f1, block_no);
    let b = block_input(f2, block_no);
    assert(a.subrange(0, 8) =~= vstd::bytes::spec_u64_to_le_bytes(f1));
    assert(b.subrange(0, 8) =~= vstd::bytes::spec_u64_to_le_bytes(f2));
    if a == b {
        assert(spec_u64_from_le_bytes(a.subrange(0, 8)) == spec_u64_from_le_bytes(b.subrange(0, 8)));
    }
}

} // verus!
