use diskfs::codec::{u32_read_le, u32_write_le};
use diskfs::layout::{DataAddresses, Dirent, Inode, InodeType, Superblock};

#[test]
fn u32_write_read_exact_bytes() {
    let mut buf = vec![0u8; 8];
    u32_write_le(&mut buf, 2, 0xDEADBEEF);
    assert_eq!(buf, vec![0, 0, 0xEF, 0xBE, 0xAD, 0xDE, 0, 0]);
    assert_eq!(u32_read_le(&buf, 2), 0xDEADBEEF);
}

#[test]
fn superblock_round_trip() {
    let sb = Superblock::new();
    let mut buf = vec![0u8; 32];
    sb.encode_as_le_bytes(&mut buf, 0);
    let back = Superblock::decode_from_le_bytes(&buf, 0);
    assert_eq!(back, sb);
}

#[test]
fn superblock_exact_bytes() {
    let sb = Superblock::new();
    let mut buf = vec![0u8; 32];
    sb.encode_as_le_bytes(&mut buf, 0);
    let expected: Vec<u8> = vec![
        0xE8, 0x03, 0, 0, // size = 1000
        0xC3, 0x03, 0, 0, // nblocks = 963
        0xC8, 0, 0, 0, // ninodes = 200
        0x0A, 0, 0, 0, // nlog = 10
        0x01, 0, 0, 0, // logstart = 1
        0x0B, 0, 0, 0, // inodestart = 11
        0x24, 0, 0, 0, // bmapstart = 36
        0x25, 0, 0, 0, // datastart = 37
    ];
    assert_eq!(buf, expected);
}

#[test]
fn inode_round_trip() {
    let mut inode = Inode::new(InodeType::Device);
    inode.major_dev = 3;
    inode.minor_dev = 9;
    inode.size = 0x01020304;
    inode.data_addresses = DataAddresses([
        5, 6, 7, 8, 9, 10, 11, 12, 13, 14, 15, 16, 17,
    ]);
    let mut buf = vec![0u8; 100];
    inode.encode_as_le_bytes(&mut buf, 13);
    let back = Inode::decode_from_le_bytes(&buf, 13);
    assert_eq!(back, inode);
}

#[test]
fn inode_exact_header_bytes() {
    let inode = Inode::new(InodeType::Dir);
    let mut buf = vec![0xFFu8; 60];
    inode.encode_as_le_bytes(&mut buf, 0);
    // tag, major, minor, nlink
    assert_eq!(&buf[0..4], &[1, 0, 0, 1]);
    // size and all thirteen addresses are zero
    assert!(buf[4..60].iter().all(|&b| b == 0));
}

#[test]
fn inode_type_unknown_tag_reads_free() {
    let buf = vec![9u8, 0, 0];
    assert_eq!(InodeType::decode_from_le_bytes(&buf, 0), InodeType::Free);
    let tags = vec![0u8, 1, 2, 3];
    assert_eq!(InodeType::decode_from_le_bytes(&tags, 0), InodeType::Free);
    assert_eq!(InodeType::decode_from_le_bytes(&tags, 1), InodeType::Dir);
    assert_eq!(InodeType::decode_from_le_bytes(&tags, 2), InodeType::File);
    assert_eq!(InodeType::decode_from_le_bytes(&tags, 3), InodeType::Device);
}

#[test]
fn dirent_round_trip() {
    let d = Dirent::new(7, "hello");
    let mut buf = vec![0u8; 16];
    d.encode_as_le_bytes(&mut buf, 0);
    assert_eq!(buf[0], 7);
    assert_eq!(&buf[1..6], b"hello");
    assert!(buf[6..16].iter().all(|&b| b == 0));
    let back = Dirent::decode_from_le_bytes(&buf, 0);
    assert_eq!(back, d);
}

#[test]
fn dirent_name_truncated_to_fifteen_bytes() {
    let d = Dirent::new(1, "a-very-long-file-name");
    assert_eq!(&d.name, b"a-very-long-fil");
}

#[test]
fn data_addresses_round_trip() {
    let a = DataAddresses([0xAABBCCDD, 1, 2, 3, 4, 5, 6, 7, 8, 9, 10, 11, 12]);
    let mut buf = vec![0u8; 52];
    a.encode_as_le_bytes(&mut buf, 0);
    assert_eq!(&buf[0..4], &[0xDD, 0xCC, 0xBB, 0xAA]);
    let back = DataAddresses::decode_from_le_bytes(&buf, 0);
    assert_eq!(back, a);
}
