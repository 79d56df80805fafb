use diskfs::layout::{Inode, InodeType, Superblock, ROOT_INO};
use diskfs::mkfs::{
    balloc, build_image, ialloc, read_dirent, read_inode, write_dirent, write_inode, zero_fs,
    FsError,
};

#[test]
fn layout_regions_do_not_overlap() {
    let sb = Superblock::new();
    assert!(sb.logstart < sb.inodestart);
    assert!(sb.inodestart < sb.bmapstart);
    assert!(sb.bmapstart < sb.datastart);
    assert!(sb.datastart < sb.size);
    assert_eq!(sb.size, 1000);
    assert_eq!(sb.logstart, 1);
    assert_eq!(sb.inodestart, 11);
    assert_eq!(sb.bmapstart, 36);
    assert_eq!(sb.datastart, 37);
    assert_eq!(sb.nblocks, 963);
    assert_eq!(sb.ninodes, 200);
    assert_eq!(sb.nlog, 10);
}

#[test]
fn zero_fs_is_one_image_of_zeroes() {
    let img = zero_fs();
    assert_eq!(img.len(), 512_000);
    assert!(img.iter().all(|&b| b == 0));
}

#[test]
fn fresh_image_has_directory_root_inode() {
    let img = build_image().unwrap();
    let sb = Superblock::new();
    assert_eq!(img.len(), 512_000);
    let root = read_inode(&img, ROOT_INO, &sb);
    assert_eq!(root.inode_type, InodeType::Dir);
    assert_eq!(root.num_links, 1);
    assert_eq!(root.data_addresses.0[0], sb.datastart);
}

#[test]
fn fresh_image_has_dot_and_dotdot_entries() {
    let img = build_image().unwrap();
    let sb = Superblock::new();
    let root = read_inode(&img, ROOT_INO, &sb);
    let block = root.data_addresses.0[0];

    let dot = read_dirent(&img, block, 0);
    assert_eq!(dot.inum, 1);
    assert_eq!(dot.name[0], b'.');
    assert!(dot.name[1..].iter().all(|&b| b == 0));

    let dotdot = read_dirent(&img, block, 1);
    assert_eq!(dotdot.inum, 1);
    assert_eq!(&dotdot.name[0..2], b"..");
    assert!(dotdot.name[2..].iter().all(|&b| b == 0));
}

#[test]
fn fresh_image_superblock_reads_back() {
    let img = build_image().unwrap();
    let sb = Superblock::decode_from_le_bytes(&img, 0);
    assert_eq!(sb, Superblock::new());
}

#[test]
fn ialloc_returns_first_free_inode() {
    let img = build_image().unwrap();
    let sb = Superblock::new();
    // inode 1 is the root directory; inode 2 is the first free one
    assert_eq!(ialloc(&img, &sb), Ok(2));
}

#[test]
fn ialloc_skips_used_inodes() {
    let mut img = build_image().unwrap();
    let sb = Superblock::new();
    for inum in 2..5 {
        write_inode(&mut img, inum, &Inode::new(InodeType::File), &sb);
    }
    assert_eq!(ialloc(&img, &sb), Ok(5));
}

#[test]
fn ialloc_fails_when_all_inodes_used() {
    let mut img = build_image().unwrap();
    let sb = Superblock::new();
    for inum in 2..sb.ninodes {
        write_inode(&mut img, inum, &Inode::new(InodeType::File), &sb);
    }
    assert_eq!(ialloc(&img, &sb), Err(FsError::NoFreeInodes));
}

#[test]
fn balloc_hands_out_data_blocks_in_order() {
    let mut img = build_image().unwrap();
    let sb = Superblock::new();
    // the root directory took block 37; the next two follow it
    assert_eq!(balloc(&mut img, &sb), Ok(38));
    assert_eq!(balloc(&mut img, &sb), Ok(39));
    assert_eq!(img.len(), 512_000);
}

#[test]
fn balloc_zero_fills_the_allocated_block() {
    let mut img = build_image().unwrap();
    let sb = Superblock::new();
    let start = 38 * 512;
    img[start] = 0xEE;
    let b = balloc(&mut img, &sb).unwrap();
    assert_eq!(b, 38);
    assert!(img[start..start + 512].iter().all(|&x| x == 0));
}

#[test]
fn balloc_fails_when_bitmap_is_full() {
    let mut img = build_image().unwrap();
    let sb = Superblock::new();
    let bmap = (sb.bmapstart as usize) * 512;
    for i in 0..512 {
        img[bmap + i] = 0xFF;
    }
    assert_eq!(balloc(&mut img, &sb), Err(FsError::NoFreeBlocks));
}

#[test]
fn inode_written_to_image_reads_back() {
    let mut img = build_image().unwrap();
    let sb = Superblock::new();
    let mut inode = Inode::new(InodeType::File);
    inode.size = 1234;
    inode.data_addresses.0[0] = 38;
    write_inode(&mut img, 42, &inode, &sb);
    assert_eq!(read_inode(&img, 42, &sb), inode);
    assert_eq!(img.len(), 512_000);
}

#[test]
fn dirent_written_to_image_reads_back() {
    let mut img = build_image().unwrap();
    let sb = Superblock::new();
    let d = diskfs::layout::Dirent::new(5, "init");
    write_dirent(&mut img, &d, sb.datastart, 2);
    assert_eq!(read_dirent(&img, sb.datastart, 2), d);
    assert_eq!(img.len(), 512_000);
}
