use plentyfs::content::{
    generate_block_data, generate_file_seed, read_file_data, BLOCK_SIZE, FILE_SALT, FILE_SIZE,
};
use plentyfs::dir::DirEntry;
use plentyfs::fs::{seed_file_text, FsError, PlentyFS};
use plentyfs::inode::{filename_to_inode, resolve, Entity, FileKind};

fn sha1_bytes(data: &[u8]) -> [u8; 20] {
    sha1::Sha1::from(data).digest().bytes()
}

#[test]
fn file_salt_is_filesalt_little_endian() {
    let bytes: [u8; 8] = *b"filesalt";
    assert_eq!(FILE_SALT, u64::from_le_bytes(bytes));
    assert_eq!(generate_file_seed(0, 0), FILE_SALT);
    assert_eq!(generate_file_seed(5, 3), 5 ^ 3 ^ FILE_SALT);
}

#[test]
fn block_is_sha1_of_seed_and_block_number() {
    let mut input = Vec::new();
    input.extend_from_slice(&42u64.to_le_bytes());
    input.extend_from_slice(&7u64.to_le_bytes());
    let expected = sha1_bytes(&input);
    let block = generate_block_data(42, 7);
    assert_eq!(block, expected);
    assert_ne!(&block[..16], &input[..]);
}

#[test]
fn sha1_of_known_input() {
    // SHA-1 of sixteen zero bytes.
    let block = generate_block_data(0, 0);
    assert_eq!(
        block,
        [
            0xe1, 0x29, 0xf2, 0x7c, 0x51, 0x03, 0xbc, 0x5c, 0xc4, 0x4b, 0xcd, 0xf0, 0xa1, 0x5e,
            0x16, 0x0d, 0x44, 0x50, 0x66, 0xff
        ]
    );
}

#[test]
fn data_read_matches_blocks() {
    let seed = generate_file_seed(9, 150);
    let data = read_file_data(seed, 15, 30);
    let mut stream = Vec::new();
    for b in 0..3u64 {
        stream.extend_from_slice(&generate_block_data(seed, b));
    }
    assert_eq!(data, stream[15..45].to_vec());
}

#[test]
fn getattr_static_table() {
    let fs = PlentyFS::new(1);
    let root = fs.getattr(1).unwrap();
    assert_eq!(root.kind, FileKind::Directory);
    assert_eq!(root.size, 0);
    assert_eq!(root.perm, 0o555);
    assert_eq!(root.nlink, 2);
    let meta = fs.getattr(2).unwrap();
    assert_eq!(meta.kind, FileKind::Directory);
    assert_eq!(meta.ino, 2);
    let seed = fs.getattr(3).unwrap();
    assert_eq!(seed.kind, FileKind::RegularFile);
    assert_eq!(seed.size, FILE_SIZE);
    assert_eq!(seed.perm, 0o444);
    let reserved = fs.getattr(100).unwrap();
    assert_eq!(reserved.kind, FileKind::RegularFile);
    let first = fs.getattr(101).unwrap();
    assert_eq!(first.size, 1_048_576);
    assert_eq!(first.ino, 101);
    let last = fs.getattr(10_100).unwrap();
    assert_eq!(last.kind, FileKind::RegularFile);
    assert_eq!(fs.getattr(0), Err(FsError::NotFound));
    assert_eq!(fs.getattr(10_101), Err(FsError::NotFound));
    assert_eq!(fs.getattr(u64::MAX), Err(FsError::NotFound));
}

#[test]
fn resolve_entities() {
    assert_eq!(resolve(1), Some(Entity::RootDir));
    assert_eq!(resolve(2), Some(Entity::MetaDir));
    assert_eq!(resolve(3), Some(Entity::MetaFile(0)));
    assert_eq!(resolve(101), Some(Entity::DataFile(0)));
    assert_eq!(resolve(10_100), Some(Entity::DataFile(9_999)));
    assert_eq!(resolve(10_101), None);
    assert_eq!(resolve(0), None);
}

#[test]
fn lookup_names() {
    let fs = PlentyFS::new(1);
    assert_eq!(fs.lookup(1, ".plentyfs").unwrap().ino, 2);
    assert_eq!(fs.lookup(2, "seed").unwrap().ino, 3);
    assert_eq!(fs.lookup(1, "0").unwrap().ino, 101);
    assert_eq!(fs.lookup(1, "9999").unwrap().ino, 10_100);
    assert_eq!(fs.lookup(1, "10000"), Err(FsError::NotFound));
    assert_eq!(fs.lookup(1, "18446744073709551615"), Err(FsError::NotFound));
    assert_eq!(fs.lookup(1, "99999999999999999999999"), Err(FsError::NotFound));
    assert_eq!(fs.lookup(1, "seed"), Err(FsError::NotFound));
    assert_eq!(fs.lookup(1, "1a"), Err(FsError::NotFound));
    assert_eq!(fs.lookup(1, ""), Err(FsError::NotFound));
    assert_eq!(fs.lookup(1, "+"), Err(FsError::NotFound));
    assert_eq!(fs.lookup(1, "-1"), Err(FsError::NotFound));
    assert_eq!(fs.lookup(2, "0"), Err(FsError::NotFound));
    assert_eq!(fs.lookup(3, "0"), Err(FsError::NotFound));
    assert_eq!(fs.lookup(101, "seed"), Err(FsError::NotFound));
    // Numerals parse as unsigned 64-bit integers do.
    assert_eq!(filename_to_inode(1, "+5"), Some(106));
    assert_eq!(filename_to_inode(1, "007"), Some(108));
}

#[test]
fn read_is_deterministic() {
    let a = PlentyFS::new(0x1234);
    let b = PlentyFS::new(0x1234);
    let first = a.read(150, 100, 500).unwrap();
    let _ = a.read(151, 0, 4096).unwrap();
    let again = a.read(150, 100, 500).unwrap();
    let other = b.read(150, 100, 500).unwrap();
    assert_eq!(first, again);
    assert_eq!(first, other);
    assert_eq!(first.len(), 500);
}

#[test]
fn overlapping_reads_agree() {
    let fs = PlentyFS::new(77);
    let r1 = fs.read(200, 10, 100).unwrap();
    let r2 = fs.read(200, 57, 200).unwrap();
    assert_eq!(&r1[47..100], &r2[0..53]);
    let s1 = fs.read(3, 0, 9).unwrap();
    let s2 = fs.read(3, 4, 9).unwrap();
    assert_eq!(&s1[4..9], &s2[..]);
}

#[test]
fn read_boundaries() {
    let fs = PlentyFS::new(5);
    assert!(fs.read(101, FILE_SIZE as i64, 100).unwrap().is_empty());
    assert!(fs.read(101, FILE_SIZE as i64 + 10, 100).unwrap().is_empty());
    assert_eq!(fs.read(101, FILE_SIZE as i64 - 7, 100).unwrap().len(), 7);
    assert_eq!(fs.read(101, 0, 0).unwrap().len(), 0);
    assert!(fs.read(101, -1, 10).unwrap().is_empty());
    let tail = fs.read(101, FILE_SIZE as i64 - 7, 7).unwrap();
    assert_eq!(fs.read(101, FILE_SIZE as i64 - 7, u32::MAX).unwrap(), tail);
    let seed = generate_file_seed(5, 101);
    let last_block = generate_block_data(seed, FILE_SIZE / BLOCK_SIZE);
    let start = (FILE_SIZE % BLOCK_SIZE) as usize;
    assert_eq!(
        fs.read(101, (FILE_SIZE - FILE_SIZE % BLOCK_SIZE) as i64, 20).unwrap(),
        last_block[..start].to_vec()
    );
}

#[test]
fn read_not_found() {
    let fs = PlentyFS::new(5);
    assert_eq!(fs.read(1, 0, 10), Err(FsError::NotFound));
    assert_eq!(fs.read(2, 0, 10), Err(FsError::NotFound));
    assert_eq!(fs.read(4, 0, 10), Err(FsError::NotFound));
    assert_eq!(fs.read(100, 0, 10), Err(FsError::NotFound));
    assert_eq!(fs.read(10_101, 0, 10), Err(FsError::NotFound));
}

#[test]
fn different_seeds_give_different_files() {
    let a = PlentyFS::new(1);
    let b = PlentyFS::new(2);
    let size = FILE_SIZE as u32;
    assert_ne!(a.read(101, 0, size).unwrap(), b.read(101, 0, size).unwrap());
    assert_ne!(a.read(5000, 0, 64).unwrap(), b.read(5000, 0, 64).unwrap());
}

#[test]
fn end_to_end_seed_zero() {
    let fs = PlentyFS::new(0);
    let size = FILE_SIZE as u32;
    let zero = fs.lookup(1, "0").unwrap().ino;
    let one = fs.lookup(1, "1").unwrap().ino;
    let a = fs.read(zero, 0, size).unwrap();
    let b = fs.read(one, 0, size).unwrap();
    assert_eq!(a.len(), 1_048_576);
    assert_eq!(b.len(), 1_048_576);
    assert_ne!(a, b);
    let meta = fs.lookup(1, ".plentyfs").unwrap().ino;
    let seed = fs.lookup(meta, "seed").unwrap().ino;
    assert_eq!(fs.read(seed, 0, 4096).unwrap(), b"00000000\n".to_vec());
}

#[test]
fn seed_file_rendering() {
    assert_eq!(seed_file_text(0x1a2b), b"00001a2b\n".to_vec());
    assert_eq!(seed_file_text(0xdeadbeef), b"deadbeef\n".to_vec());
    assert_eq!(
        seed_file_text(0xf256555895d306f0),
        b"f256555895d306f0\n".to_vec()
    );
    assert_eq!(seed_file_text(0x123456789), b"123456789\n".to_vec());
    let fs = PlentyFS::new(0xabc);
    assert_eq!(fs.read(3, 5, 100).unwrap(), b"abc\n".to_vec());
    assert!(fs.read(3, 9, 100).unwrap().is_empty());
    assert!(fs.read(3, FILE_SIZE as i64, 1).unwrap().is_empty());
}

fn collect_listing(fs: &PlentyFS, dir: u64, page_size: usize) -> Vec<DirEntry> {
    let mut all = Vec::new();
    let mut cursor: i64 = 0;
    loop {
        let page = fs.readdir(dir, cursor, page_size).unwrap();
        if page.is_empty() {
            break;
        }
        cursor = page.last().unwrap().offset;
        all.extend(page);
    }
    all
}

#[test]
fn metadata_directory_listing() {
    let fs = PlentyFS::new(0);
    let all = fs.readdir(2, 0, 100).unwrap();
    let names: Vec<&str> = all.iter().map(|e| e.name.as_str()).collect();
    assert_eq!(names, vec![".", "..", "seed"]);
    assert_eq!(all[0].ino, 2);
    assert_eq!(all[1].ino, 1);
    assert_eq!(all[2].ino, 3);
    assert_eq!(all[2].kind, FileKind::RegularFile);
    let offsets: Vec<i64> = all.iter().map(|e| e.offset).collect();
    assert_eq!(offsets, vec![1, 2, 3]);
    assert!(fs.readdir(2, 3, 100).unwrap().is_empty());
    assert_eq!(fs.readdir(3, 0, 10).err(), Some(FsError::NotFound));
    assert_eq!(fs.readdir(101, 0, 10).err(), Some(FsError::NotFound));
}

#[test]
fn root_listing_pages_partition() {
    let fs = PlentyFS::new(0);
    let whole = fs.readdir(1, 0, usize::MAX).unwrap();
    assert_eq!(whole.len(), 10_003);
    assert_eq!(whole[0].name, ".");
    assert_eq!(whole[1].name, "..");
    assert_eq!(whole[2].name, ".plentyfs");
    assert_eq!(whole[2].kind, FileKind::Directory);
    assert_eq!(whole[2].ino, 2);
    assert_eq!(whole[3].name, "0");
    assert_eq!(whole[3].ino, 101);
    assert_eq!(whole[3].offset, 4);
    assert_eq!(whole[10_002].name, "9999");
    assert_eq!(whole[10_002].ino, 10_100);
    for (i, e) in whole.iter().enumerate() {
        assert_eq!(e.offset, i as i64 + 1);
    }
    for page_size in [1usize, 2, 3, 7, 1000, 10_003] {
        assert_eq!(collect_listing(&fs, 1, page_size), whole);
    }
    assert!(fs.readdir(1, 10_003, 5).unwrap().is_empty());
    assert!(fs.readdir(1, -1, 5).unwrap().is_empty());
    assert!(fs.readdir(1, 5, 0).unwrap().is_empty());
    let resumed = fs.readdir(1, 2, 2).unwrap();
    assert_eq!(resumed[0].name, ".plentyfs");
    assert_eq!(resumed[1].name, "0");
}

#[test]
fn listed_names_look_up_to_listed_inodes() {
    let fs = PlentyFS::new(0);
    for e in fs.readdir(1, 2, 50).unwrap() {
        assert_eq!(fs.lookup(1, &e.name).unwrap().ino, e.ino);
    }
}
