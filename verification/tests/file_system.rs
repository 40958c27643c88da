use myos::file_system::block::{Disk, BLOCK_SIZE, NUM_BLOCKS};
use myos::file_system::dir::DirEntry;
use myos::file_system::fs::{FileSystem, Lookup, DATA_START, FILE_DATA_BLOCK, INODE_START};
use myos::file_system::inode::Inode;

fn fresh() -> FileSystem {
    let mut fs = FileSystem::new();
    fs.init();
    fs
}

fn same_inode(a: Inode, b: Inode) -> bool {
    a.size == b.size && a.block == b.block && a.file_type == b.file_type
}

#[test]
fn new_disk_is_zeroed() {
    let disk = Disk::new();
    assert_eq!(disk.read_block(0), [0u8; BLOCK_SIZE]);
    assert_eq!(disk.read_block(NUM_BLOCKS - 1), [0u8; BLOCK_SIZE]);
}

#[test]
fn block_write_then_read() {
    let mut disk = Disk::new();
    let mut buf = [0u8; BLOCK_SIZE];
    buf[0] = 7;
    buf[511] = 9;
    disk.write_block(3, buf);
    assert_eq!(disk.read_block(3), buf);
    assert_eq!(disk.read_block(2), [0u8; BLOCK_SIZE]);
    assert_eq!(disk.read_block(4), [0u8; BLOCK_SIZE]);
    let mut other = [1u8; BLOCK_SIZE];
    other[5] = 2;
    disk.write_block(3, other);
    assert_eq!(disk.read_block(3), other);
}

#[test]
fn inode_layout_is_little_endian() {
    let inode = Inode { size: 0x0102_0304, block: 0x0a0b_0c0d, file_type: 0x1122 };
    let buf = inode.to_block();
    assert_eq!(&buf[..12], &[4, 3, 2, 1, 0x0d, 0x0c, 0x0b, 0x0a, 0x22, 0x11, 0, 0]);
    assert!(buf[12..].iter().all(|b| *b == 0));
    assert!(same_inode(Inode::from_block(&buf), inode));
}

#[test]
fn default_inode_is_zero() {
    assert!(same_inode(Inode::default(), Inode { size: 0, block: 0, file_type: 0 }));
}

#[test]
fn inode_write_then_read() {
    let mut fs = FileSystem::new();
    let a = Inode { size: 42, block: 99, file_type: 1 };
    let b = Inode { size: 7, block: 3, file_type: 2 };
    fs.write_inode(5, a);
    fs.write_inode(6, b);
    assert!(same_inode(fs.read_inode(5), a));
    assert!(same_inode(fs.read_inode(6), b));
    assert!(same_inode(fs.read_inode(4), Inode { size: 0, block: 0, file_type: 0 }));
    assert_eq!(fs.disk.read_block(INODE_START + 5)[0], 42);
}

#[test]
fn init_writes_root_directory_inode() {
    let fs = fresh();
    assert!(same_inode(fs.read_inode(0), Inode { size: 0, block: DATA_START as u32, file_type: 2 }));
    assert_eq!(DATA_START, 17);
}

#[test]
fn dir_entry_keeps_name() {
    let e = DirEntry::new("notes.txt", 3);
    assert_eq!(e.inode, 3);
    assert_eq!(e.name_len, 9);
    assert_eq!(&e.name[..9], b"notes.txt");
    assert!(e.name[9..].iter().all(|b| *b == 0));
}

#[test]
fn dir_entry_truncates_long_name() {
    let e = DirEntry::new("abcdefghijklmnopqrst", 1);
    assert_eq!(e.name_len, 20);
    assert_eq!(&e.name, b"abcdefghijklmnop");
    let very_long = "x".repeat(300);
    assert_eq!(DirEntry::new(&very_long, 1).name_len, 44);
}

#[test]
fn dir_entry_layout_round_trips() {
    let e = DirEntry::new("ab", 0x0102_0304);
    let mut buf = [0xeeu8; BLOCK_SIZE];
    e.write_to(&mut buf, 24);
    assert_eq!(&buf[24..31], &[4, 3, 2, 1, 2, b'a', b'b']);
    assert_eq!(&buf[45..48], &[0, 0, 0]);
    assert_eq!(buf[23], 0xee);
    assert_eq!(buf[48], 0xee);
    let back = DirEntry::from_block(&buf, 24);
    assert_eq!(back.inode, e.inode);
    assert_eq!(back.name_len, e.name_len);
    assert_eq!(back.name, e.name);
}

#[test]
fn create_then_find() {
    let mut fs = fresh();
    assert_eq!(fs.find_inode("a.txt"), None);
    fs.create("a.txt");
    assert_eq!(fs.find_inode("a.txt"), Some(1));
    assert_eq!(fs.find_inode("b.txt"), None);
    assert_eq!(fs.find_inode("a.tx"), None);
    assert!(same_inode(fs.read_inode(1), Inode { size: 0, block: 0, file_type: 1 }));
}

#[test]
fn create_fills_slots_in_order() {
    let mut fs = fresh();
    fs.create("one");
    fs.create("two");
    let dir = fs.disk.read_block(DATA_START);
    assert_eq!(dir[0], 1);
    assert_eq!(&dir[5..8], b"one");
    assert_eq!(dir[24], 1);
    assert_eq!(&dir[29..32], b"two");
    assert_eq!(fs.find_inode("two"), Some(1));
}

#[test]
fn full_directory_ignores_new_entries() {
    let mut fs = fresh();
    for i in 0..21 {
        fs.create(&format!("f{}", i));
    }
    let before = fs.disk.read_block(DATA_START);
    fs.add_dir_entry("extra", 9);
    assert_eq!(fs.disk.read_block(DATA_START), before);
    assert_eq!(fs.find_inode("extra"), None);
    assert_eq!(fs.find_inode("f20"), Some(1));
}

#[test]
fn add_dir_entry_names_given_inode() {
    let mut fs = fresh();
    fs.add_dir_entry("dev", 7);
    assert_eq!(fs.find_inode("dev"), Some(7));
}

#[test]
fn write_then_read_file() {
    let mut fs = fresh();
    fs.create("hello.txt");
    fs.write_file("hello.txt", "Hello, disk!");
    assert_eq!(fs.read_file("hello.txt"), Some("Hello, disk!".to_string()));
    let inode = fs.read_inode(1);
    assert_eq!(inode.size, 12);
    assert_eq!(inode.block as usize, FILE_DATA_BLOCK);
    assert_eq!(inode.file_type, 1);
    assert_eq!(&fs.disk.read_block(FILE_DATA_BLOCK)[..12], b"Hello, disk!");
}

#[test]
fn last_write_wins() {
    let mut fs = fresh();
    fs.create("f");
    fs.write_file("f", "a longer first content");
    fs.write_file("f", "short");
    assert_eq!(fs.read_file("f"), Some("short".to_string()));
    assert_eq!(fs.disk.read_block(FILE_DATA_BLOCK)[5], 0);
}

#[test]
fn empty_and_full_block_contents() {
    let mut fs = fresh();
    fs.create("f");
    fs.write_file("f", "");
    assert_eq!(fs.read_file("f"), Some(String::new()));
    let full = "z".repeat(BLOCK_SIZE);
    fs.write_file("f", &full);
    assert_eq!(fs.read_file("f"), Some(full.clone()));
}

#[test]
fn files_share_the_data_block() {
    let mut fs = fresh();
    fs.create("a");
    fs.create("b");
    fs.write_file("a", "first");
    assert_eq!(fs.read_file("b"), Some("first".to_string()));
}

#[test]
fn lookup_reports_each_outcome() {
    let mut fs = fresh();
    assert_eq!(fs.lookup_name("x"), Lookup::Missing);
    fs.create("x");
    assert_eq!(fs.lookup_name("x"), Lookup::Found(1));
    fs.create("a-name-longer-than-16");
    assert_eq!(fs.lookup_name("x"), Lookup::Found(1));
    assert_eq!(fs.lookup_name("y"), Lookup::BadName);
}

#[test]
fn multibyte_text_reads_back() {
    let mut fs = fresh();
    fs.create("t");
    fs.write_file("t", "grüße, 世界");
    assert_eq!(fs.read_file("t"), Some("grüße, 世界".to_string()));
}

#[test]
fn invalid_utf8_content_reads_as_none() {
    let mut fs = fresh();
    fs.create("t");
    fs.write_file("t", "ab");
    let mut block = [0u8; BLOCK_SIZE];
    block[0] = b'a';
    block[1] = 0xff;
    fs.disk.write_block(FILE_DATA_BLOCK, block);
    assert_eq!(fs.read_file("t"), None);
}
