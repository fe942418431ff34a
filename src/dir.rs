//! Directory listings: a fixed order of entries per directory, handed out in
//! pages that resume at an ordinal cursor.

use crate::inode::{
    is_directory, FileKind, FILES_COUNT, FIRST_DATA_INODE, META_DIR_INODE, META_DIR_NAME,
    ROOT_INODE, SEED_FILE_INODE, SEED_FILE_NAME,
};
use vstd::prelude::*;
use vstd::string::{StrSliceExecFns, StringExecFns};

verus! {

/// Name of a directory's entry for itself.
pub const CURRENT_DIR_NAME: &'static str = ".";

/// Name of a directory's entry for its parent.
pub const PARENT_DIR_NAME: &'static str = "..";

/// One entry of a directory listing.
#[derive(Debug, PartialEq, Eq)]
pub struct DirEntry {
    /// The inode the entry names.
    pub ino: u64,
    /// The cursor to resume from after this entry: its ordinal plus one.
    pub offset: i64,
    pub kind: FileKind,
    pub name: String,
}

/// A directory entry with its name as a character sequence.
pub struct DirEntryView {
    pub ino: u64,
    pub offset: i64,
    pub kind: FileKind,
    pub name: Seq<char>,
}

impl View for DirEntry {
    type V = DirEntryView;

    open spec fn view(&self) -> DirEntryView {
        DirEntryView { ino: self.ino, offset: self.offset, kind: self.kind, name: self.name@ }
    }
}

pub open spec fn entries_view(v: Seq<DirEntry>) -> Seq<DirEntryView> {
    v.map_values(|e: DirEntry| e@)
}

pub open spec fn digit_char(d: nat) -> char {
    seq!['0', '1', '2', '3', '4', '5', '6', '7', '8', '9'][d as int]
}

/// The decimal numeral of `n`, without leading zeros.
pub open spec fn dec_text(n: nat) -> Seq<char>
    decreases n,
{
    if n < 10 {
        seq![digit_char(n)]
    } else {
        dec_text(n / 10).push(digit_char(n % 10))
    }
}

/// How many entries directory `dir` lists.
pub open spec fn dir_len(dir: u64) -> int {
    if dir == ROOT_INODE {
        3 + FILES_COUNT
    } else if dir == META_DIR_INODE {
        3
    } else {
        0
    }
}

/// The entry at ordinal `i` of directory `dir`: `.`, `..`, then for the root
/// the metadata directory and the data files in ascending order, for the
/// metadata directory its seed file.
pub open spec fn entry_at(dir: u64, i: int) -> DirEntryView {
    if i == 0 {
        DirEntryView { ino: dir, offset: 1, kind: FileKind::Directory, name: CURRENT_DIR_NAME@ }
    } else if i == 1 {
        DirEntryView {
            ino: ROOT_INODE,
            offset: 2,
            kind: FileKind::Directory,
            name: PARENT_DIR_NAME@,
        }
    } else if dir == ROOT_INODE {
        if i == 2 {
            DirEntryView {
                ino: META_DIR_INODE,
                offset: 3,
                kind: FileKind::Directory,
                name: META_DIR_NAME@,
            }
        } else {
            DirEntryView {
                ino: (FIRST_DATA_INODE + i - 3) as u64,
                offset: (i + 1) as i64,
                kind: FileKind::RegularFile,
                name: dec_text((i - 3) as nat),
            }
        }
    } else {
        DirEntryView {
            ino: SEED_FILE_INODE,
            offset: 3,
            kind: FileKind::RegularFile,
            name: SEED_FILE_NAME@,
        }
    }
}

/// All entries of directory `dir`, in listing order.
pub open spec fn dir_entries(dir: u64) -> Seq<DirEntryView> {
    Seq::new(dir_len(dir) as nat, |i: int| entry_at(dir, i))
}

/// The page of at most `limit` entries that starts at cursor `offset`: empty
/// for a negative cursor or one at or past the end.
pub open spec fn page(dir: u64, offset: int, limit: int) -> Seq<DirEntryView> {
    let len = dir_len(dir);
    if offset < 0 || offset >= len {
        Seq::empty()
    } else {
        let end = if offset + limit < len {
            offset + limit
        } else {
            len
        };
        dir_entries(dir).subrange(offset, end)
    }
}

/// Where a listing resumes after page `p`, which started at `offset`.
pub open spec fn next_cursor(offset: int, p: Seq<DirEntryView>) -> int {
    if p.len() == 0 {
        offset
    } else {
        p.last().offset as int
    }
}

/// What pages of the sizes in `limits` hold together, each taken at the
/// cursor that the one before it hands back.
pub open spec fn listing(dir: u64, offset: int, limits: Seq<nat>) -> Seq<DirEntryView>
    decreases limits.len(),
{
    if limits.len() == 0 {
        Seq::empty()
    } else {
        let p = page(dir, offset, limits[0] as int);
        p + listing(dir, next_cursor(offset, p), limits.drop_first())
    }
}

pub open spec fn sum(limits: Seq<nat>) -> nat
    decreases limits.len(),
{
    if limits.len() == 0 {
        0
    } else {
        limits[0] + sum(limits.drop_first())
    }
}

/// Listing by pages is a partition of the directory: whatever the page sizes,
/// the pages taken from cursor `offset` on, each at the cursor that the one
/// before it returned, hold the directory's entries from `offset` on in
/// order, each once, as many as the sizes add up to. The entries' cursors
/// strictly increase, so no entry comes twice.
pub proof fn lemma_pages_partition(dir: u64, offset: int, limits: Seq<nat>)
    requires
        is_directory(dir),
        0 <= offset <= dir_len(dir),
    ensures
        listing(dir, offset, limits) == dir_entries(dir).subrange(
            offset,
            if offset + sum(limits) < dir_len(dir) {
                offset + sum(limits)
            } else {
                dir_len(dir)
            },
        ),
        forall|i: int, j: int|
            0 <= i < j < dir_len(dir) ==> (#[trigger] dir_entries(dir)[i]).offset
                < (#[trigger] dir_entries(dir)[j]).offset,
    decreases limits.len(),
{
    let len = dir_len(dir);
    if limits.len() > 0 {
        let l0 = limits[0] as int;
        let p = page(dir, offset, l0);
        let cursor = if offset + l0 < len {
            offset + l0
        } else {
            len
        };
        assert(next_cursor(offset, p) == cursor);
        lemma_pages_partition(dir, cursor, limits.drop_first());
        let end = if offset + sum(limits) < len {
            offset + sum(limits)
        } else {
            len
        };
        assert(p =~= dir_entries(dir).subrange(offset, cursor));
        assert(listing(dir, offset, limits) =~= dir_entries(dir).subrange(offset, end));
    } else {
        assert(listing(dir, offset, limits) =~= dir_entries(dir).subrange(offset, offset));
    }
}

/// Append the decimal numeral of `n` to `out`.
fn push_decimal(n: u64, out: &mut String)
    ensures
        final(out)@ == old(out)@ + dec_text(n as nat),
    decreases n,
{
    if n >= 10 {
        push_decimal(n / 10, out);
    }
    let digits = "0123456789";
    proof {
        reveal_strlit("0123456789");
    }
    let d = (n % 10) as usize;
    let s = digits.substring_char(d, d + 1);
    assert(s@ =~= seq![digit_char(d as nat)]);
    out.append(s);
}

/// The entry at ordinal `i` of directory `dir`.
pub fn entry(dir: u64, i: u64) -> (r: DirEntry)
    requires
        is_directory(dir),
        i < dir_len(dir),
    ensures
        r@ == entry_at(dir, i as int),
{
    if i == 0 {
        DirEntry {
            ino: dir,
            offset: 1,
            kind: FileKind::Directory,
            name: CURRENT_DIR_NAME.to_owned(),
        }
    } else if i == 1 {
        DirEntry {
            ino: ROOT_INODE,
            offset: 2,
            kind: FileKind::Directory,
            name: PARENT_DIR_NAME.to_owned(),
        }
    } else if dir == ROOT_INODE {
        if i == 2 {
            DirEntry {
                ino: META_DIR_INODE,
                offset: 3,
                kind: FileKind::Directory,
                name: META_DIR_NAME.to_owned(),
            }
        } else {
            let mut name = String::new();
            push_decimal(i - 3, &mut name);
            assert(name@ =~= dec_text((i - 3) as nat));
            DirEntry {
                ino: FIRST_DATA_INODE + i - 3,
                offset: (i + 1) as i64,
                kind: FileKind::RegularFile,
                name,
            }
        }
    } else {
        DirEntry {
            ino: SEED_FILE_INODE,
            offset: 3,
            kind: FileKind::RegularFile,
            name: SEED_FILE_NAME.to_owned(),
        }
    }
}

/// The page of at most `limit` entries of directory `dir` from cursor `offset`.
pub fn list_entries(dir: u64, offset: i64, limit: usize) -> (r: Vec<DirEntry>)
    requires
        is_directory(dir),
    ensures
        entries_view(r@) == page(dir, offset as int, limit as int),
{
    let len: u64 = if dir == ROOT_INODE {
        3 + FILES_COUNT
    } else {
        3
    };
    let mut r: Vec<DirEntry> = Vec::new();
    if offset < 0 || offset as u64 >= len {
        assert(entries_view(r@) =~= page(dir, offset as int, limit as int));
        return r;
    }
    let start = offset as u64;
    let end: u64 = if (limit as u64) < len - start {
        start + limit as u64
    } else {
        len
    };
    let mut i: u64 = start;
    while i < end
        invariant
            is_directory(dir),
            len == dir_len(dir),
            start <= i <= end <= len,
            r@.len() == i - start,
            forall|k: int| 0 <= k < r@.len() ==> (#[trigger] r@[k])@ == entry_at(dir, start + k),
        decreases end - i,
    {
        r.push(entry(dir, i));
        i += 1;
    }
    assert(entries_view(r@) =~= page(dir, offset as int, limit as int));
    r
}

} // verus!
