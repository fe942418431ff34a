//! The fixed namespace: which entity each inode number and each name denotes.

use crate::content::FILE_SIZE;
use vstd::prelude::*;
use vstd::string::StrSliceExecFns;

verus! {

/// The root directory.
pub const ROOT_INODE: u64 = 1;

/// The metadata directory, `/.plentyfs`.
pub const META_DIR_INODE: u64 = 2;

/// The metadata file `/.plentyfs/seed`, the first slot of the metadata range.
pub const SEED_FILE_INODE: u64 = 3;

/// The last inode reserved for metadata files.
pub const LAST_META_INODE: u64 = 100;

/// The inode of data file `0`; data file `k` has inode `FIRST_DATA_INODE + k`.
pub const FIRST_DATA_INODE: u64 = 101;

/// How many data files the root directory holds.
pub const FILES_COUNT: u64 = 10_000;

/// The block size reported in attributes.
pub const REPORTED_BLOCK_SIZE: u32 = 4096;

/// Name of the metadata directory inside the root.
pub const META_DIR_NAME: &'static str = ".plentyfs";

/// Name of the seed file inside the metadata directory.
pub const SEED_FILE_NAME: &'static str = "seed";

/// What an inode stands for.
#[derive(Clone, Copy, Debug, PartialEq, Eq, Structural)]
pub enum Entity {
    RootDir,
    MetaDir,
    /// A slot of the metadata range, counted from the seed file's inode.
    MetaFile(u64),
    /// A data file, by its number.
    DataFile(u64),
}

/// The kind of a filesystem entry.
#[derive(Clone, Copy, Debug, PartialEq, Eq, Structural)]
pub enum FileKind {
    Directory,
    RegularFile,
}

/// Static metadata of an inode. Every time field of every inode is the Unix
/// epoch, and owner and group are 0.
#[derive(Clone, Copy, Debug, PartialEq, Eq, Structural)]
pub struct FileAttributes {
    pub ino: u64,
    pub size: u64,
    pub blocks: u64,
    pub kind: FileKind,
    pub perm: u16,
    pub nlink: u32,
    pub uid: u32,
    pub gid: u32,
    pub rdev: u32,
    pub flags: u32,
    pub blksize: u32,
}

/// The entity that `ino` denotes, if any.
pub open spec fn entity_of(ino: u64) -> Option<Entity> {
    if ino == ROOT_INODE {
        Some(Entity::RootDir)
    } else if ino == META_DIR_INODE {
        Some(Entity::MetaDir)
    } else if SEED_FILE_INODE <= ino <= LAST_META_INODE {
        Some(Entity::MetaFile((ino - SEED_FILE_INODE) as u64))
    } else if FIRST_DATA_INODE <= ino < FIRST_DATA_INODE + FILES_COUNT {
        Some(Entity::DataFile((ino - FIRST_DATA_INODE) as u64))
    } else {
        None
    }
}

pub open spec fn is_directory(ino: u64) -> bool {
    ino == ROOT_INODE || ino == META_DIR_INODE
}

/// The attributes of a directory.
pub open spec fn directory_attributes(ino: u64) -> FileAttributes {
    FileAttributes {
        ino,
        size: 0,
        blocks: 0,
        kind: FileKind::Directory,
        perm: 0o555,
        nlink: 2,
        uid: 0,
        gid: 0,
        rdev: 0,
        flags: 0,
        blksize: REPORTED_BLOCK_SIZE,
    }
}

/// The attributes of a metadata or data file.
pub open spec fn file_attributes(ino: u64) -> FileAttributes {
    FileAttributes {
        ino,
        size: FILE_SIZE,
        blocks: 1,
        kind: FileKind::RegularFile,
        perm: 0o444,
        nlink: 1,
        uid: 0,
        gid: 0,
        rdev: 0,
        flags: 0,
        blksize: REPORTED_BLOCK_SIZE,
    }
}

/// The attributes of `ino`, where it exists.
pub open spec fn attributes_of(ino: u64) -> Option<FileAttributes> {
    match entity_of(ino) {
        Some(Entity::RootDir) | Some(Entity::MetaDir) => Some(directory_attributes(ino)),
        Some(_) => Some(file_attributes(ino)),
        None => None,
    }
}

/// The entity that `ino` denotes, if any.
pub fn resolve(ino: u64) -> (r: Option<Entity>)
    ensures
        r == entity_of(ino),
{
    if ino == ROOT_INODE {
        Some(Entity::RootDir)
    } else if ino == META_DIR_INODE {
        Some(Entity::MetaDir)
    } else if SEED_FILE_INODE <= ino && ino <= LAST_META_INODE {
        Some(Entity::MetaFile(ino - SEED_FILE_INODE))
    } else if FIRST_DATA_INODE <= ino && ino < FIRST_DATA_INODE + FILES_COUNT {
        Some(Entity::DataFile(ino - FIRST_DATA_INODE))
    } else {
        None
    }
}

/// The attributes of `ino`, or `None` where it does not exist.
pub fn inode_to_file_attr(ino: u64) -> (r: Option<FileAttributes>)
    ensures
        r == attributes_of(ino),
{
    let template = FileAttributes {
        ino,
        size: 0,
        blocks: 0,
        kind: FileKind::Directory,
        perm: 0o555,
        nlink: 2,
        uid: 0,
        gid: 0,
        rdev: 0,
        flags: 0,
        blksize: REPORTED_BLOCK_SIZE,
    };
    match resolve(ino) {
        Some(Entity::RootDir) | Some(Entity::MetaDir) => Some(template),
        Some(_) => Some(
            FileAttributes {
                size: FILE_SIZE,
                blocks: 1,
                kind: FileKind::RegularFile,
                perm: 0o444,
                nlink: 1,
                ..template
            },
        ),
        None => None,
    }
}

pub open spec fn is_dec_digit(c: char) -> bool {
    '0' as u32 <= c as u32 <= '9' as u32
}

pub open spec fn all_dec(s: Seq<char>) -> bool {
    forall|i: int| 0 <= i < s.len() ==> #[trigger] is_dec_digit(s[i])
}

/// The number that a string of decimal digits denotes.
pub open spec fn dec_value(s: Seq<char>) -> nat
    decreases s.len(),
{
    if s.len() == 0 {
        0
    } else {
        dec_value(s.drop_last()) * 10 + (s.last() as u32 - '0' as u32) as nat
    }
}

/// The digits of an unsigned decimal numeral: an optional `+`, then at least one digit.
pub open spec fn numeral_digits(s: Seq<char>) -> Seq<char> {
    if s.len() > 0 && s[0] == '+' {
        s.drop_first()
    } else {
        s
    }
}

/// The number of the data file that `name` denotes, if it is an unsigned
/// decimal numeral below the number of files.
pub open spec fn data_file_number(name: Seq<char>) -> Option<u64> {
    let digits = numeral_digits(name);
    if digits.len() > 0 && all_dec(digits) && dec_value(digits) < FILES_COUNT {
        Some(dec_value(digits) as u64)
    } else {
        None
    }
}

/// The inode that `name` denotes inside directory `parent`, if any.
pub open spec fn child_inode(parent: u64, name: Seq<char>) -> Option<u64> {
    if parent == ROOT_INODE {
        if name == META_DIR_NAME@ {
            Some(META_DIR_INODE)
        } else {
            match data_file_number(name) {
                Some(k) => Some((FIRST_DATA_INODE + k) as u64),
                None => None,
            }
        }
    } else if parent == META_DIR_INODE {
        if name == SEED_FILE_NAME@ {
            Some(SEED_FILE_INODE)
        } else {
            None
        }
    } else {
        None
    }
}

/// Whether two strings hold the same characters.
pub fn same_chars(a: &str, b: &str) -> (r: bool)
    ensures
        r == (a@ == b@),
{
    let n = a.unicode_len();
    if n != b.unicode_len() {
        return false;
    }
    let mut i: usize = 0;
    while i < n
        invariant
            n == a@.len(),
            n == b@.len(),
            i <= n,
            forall|k: int| 0 <= k < i ==> a@[k] == b@[k],
        decreases n - i,
    {
        if a.get_char(i) != b.get_char(i) {
            return false;
        }
        i += 1;
    }
    assert(a@ =~= b@);
    true
}

/// The data file number of `name`, as `data_file_number` says.
fn parse_data_file_number(name: &str) -> (r: Option<u64>)
    ensures
        r == data_file_number(name@),
{
    let n = name.unicode_len();
    let start: usize = if n > 0 && name.get_char(0) == '+' {
        1
    } else {
        0
    };
    let ghost digits = numeral_digits(name@);
    assert(digits =~= name@.subrange(start as int, n as int));
    if start == n {
        return None;
    }
    // The value so far, capped at the number of files.
    let mut acc: u64 = 0;
    let mut i: usize = start;
    assert(digits.subrange(0, 0) =~= Seq::<char>::empty());
    while i < n
        invariant
            n == name@.len(),
            start <= i <= n,
            digits =~= name@.subrange(start as int, n as int),
            digits == numeral_digits(name@),
            forall|k: int| 0 <= k < i - start ==> #[trigger] is_dec_digit(digits[k]),
            acc == if dec_value(digits.subrange(0, i - start)) < FILES_COUNT {
                dec_value(digits.subrange(0, i - start))
            } else {
                FILES_COUNT as nat
            },
        decreases n - i,
    {
        let u = name.get_char(i) as u32;
        if u < '0' as u32 || u > '9' as u32 {
            assert(!is_dec_digit(digits[i - start]));
            return None;
        }
        let d = (u - '0' as u32) as u64;
        let ghost prefix = digits.subrange(0, i - start);
        assert(digits.subrange(0, i + 1 - start).drop_last() =~= prefix);
        acc = if acc >= FILES_COUNT || acc * 10 + d >= FILES_COUNT {
            FILES_COUNT
        } else {
            acc * 10 + d
        };
        i += 1;
    }
    assert(digits.subrange(0, n - start) =~= digits);
    if acc < FILES_COUNT {
        Some(acc)
    } else {
        None
    }
}

/// Convert a filename inside directory `parent_inode` into the inode it names.
///
/// Returns `None` where `parent_inode` is no directory or the name denotes nothing in it.
pub fn filename_to_inode(parent_inode: u64, name: &str) -> (r: Option<u64>)
    ensures
        r == child_inode(parent_inode, name@),
{
    if parent_inode == ROOT_INODE {
        if same_chars(name, META_DIR_NAME) {
            Some(META_DIR_INODE)
        } else {
            match parse_data_file_number(name) {
                Some(k) => Some(FIRST_DATA_INODE + k),
                None => None,
            }
        }
    } else if parent_inode == META_DIR_INODE {
        if same_chars(name, SEED_FILE_NAME) {
            Some(SEED_FILE_INODE)
        } else {
            None
        }
    } else {
        None
    }
}

} // verus!
