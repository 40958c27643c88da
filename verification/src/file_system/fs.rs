use vstd::prelude::*;
use vstd::string::StringSliceAdditionalSpecFns;
use vstd::slice::slice_subrange;
use vstd::utf8::{decode_utf8, valid_utf8};
use crate::shell::str_from_utf8;
use crate::file_system::block::{
    copy_into, lemma_disk_shape, splice, zero_block, Disk, BLOCK_SIZE, NUM_BLOCKS,
};
use crate::file_system::dir::{
    dir_entries, new_entry, with_entry, DirEntry, DirEntryView, DIR_ENTRY_BYTES,
    ENTRIES_PER_BLOCK, NAME_CAPACITY,
};
use crate::file_system::inode::{inode_block, inode_from_bytes, Inode, FILE_TYPE_DIR, FILE_TYPE_FILE};

verus! {

broadcast use lemma_disk_shape;

/// The block that holds inode 0; inode `n` is held by block `INODE_START + n`.
pub const INODE_START: usize = 1;

/// Number of blocks set aside for inodes.
pub const INODE_COUNT: usize = 16;

/// First block after the inode blocks; the root directory lives there.
pub const DATA_START: usize = INODE_START + INODE_COUNT;

/// The block into which every file's content is written.
pub const FILE_DATA_BLOCK: usize = DATA_START + 1;

/// The inode number that `create` gives every new file.
pub const CREATED_INODE: u32 = 1;

/// Outcome of looking a name up in the root directory.
#[derive(Clone, Copy, PartialEq, Eq, Structural, Debug)]
pub enum Lookup {
    /// A live entry with this name names this inode.
    Found(u32),
    /// No live entry has this name.
    Missing,
    /// A live entry met before any match records a name longer than an entry holds.
    BadName,
}

impl Lookup {
    /// The inode number of a `Found` outcome.
    pub open spec fn inode(self) -> u32 {
        match self {
            Lookup::Found(n) => n,
            _ => 0,
        }
    }
}

/// Looks `name` up among `entries`, from slot `i` on, in slot order.
pub open spec fn lookup_from(entries: Seq<DirEntryView>, name: Seq<u8>, i: int) -> Lookup
    decreases entries.len() - i,
{
    if i < 0 || i >= entries.len() {
        Lookup::Missing
    } else {
        let e = entries[i];
        if e.inode != 0 && e.name_len > NAME_CAPACITY {
            Lookup::BadName
        } else if e.inode != 0 && e.name.take(e.name_len as int) == name {
            Lookup::Found(e.inode)
        } else {
            lookup_from(entries, name, i + 1)
        }
    }
}

/// The first free slot (inode 0) among `entries`, from slot `i` on.
pub open spec fn first_free_from(entries: Seq<DirEntryView>, i: int) -> Option<int>
    decreases entries.len() - i,
{
    if i < 0 || i >= entries.len() {
        None
    } else if entries[i].inode == 0 {
        Some(i)
    } else {
        first_free_from(entries, i + 1)
    }
}

/// The inode stored for inode number `n` on the disk `d`.
pub open spec fn inode_of(d: Seq<Seq<u8>>, n: int) -> Inode {
    inode_from_bytes(d[INODE_START + n])
}

/// The disk `d` with inode number `n` set to `inode`.
pub open spec fn with_inode(d: Seq<Seq<u8>>, n: int, inode: Inode) -> Seq<Seq<u8>> {
    d.update(INODE_START + n, inode_block(inode))
}

/// The root directory's inode, as `init` writes it.
pub open spec fn root_inode() -> Inode {
    Inode { size: 0, block: DATA_START as u32, file_type: FILE_TYPE_DIR }
}

/// The inode `create` writes for a new file.
pub open spec fn created_inode() -> Inode {
    Inode { size: 0, block: 0, file_type: FILE_TYPE_FILE }
}

/// The block that holds the root directory, as inode 0 records it.
pub open spec fn root_dir_block(d: Seq<Seq<u8>>) -> int {
    inode_of(d, 0).block as int
}

/// The entries of the root directory.
pub open spec fn root_entries(d: Seq<Seq<u8>>) -> Seq<DirEntryView> {
    dir_entries(d[root_dir_block(d)])
}

/// Looks `name` up in the root directory of `d`.
pub open spec fn lookup(d: Seq<Seq<u8>>, name: Seq<u8>) -> Lookup {
    lookup_from(root_entries(d), name, 0)
}

/// The disk `d` with `e` written into the first free slot of the root
/// directory; `d` itself when no slot is free.
pub open spec fn with_dir_entry(d: Seq<Seq<u8>>, e: DirEntryView) -> Seq<Seq<u8>> {
    let blk = root_dir_block(d);
    match first_free_from(root_entries(d), 0) {
        Some(i) => d.update(blk, with_entry(d[blk], i, e)),
        None => d,
    }
}

/// The disk after creating a file named `name` on `d`.
pub open spec fn created(d: Seq<Seq<u8>>, name: Seq<u8>) -> Seq<Seq<u8>> {
    with_dir_entry(with_inode(d, CREATED_INODE as int, created_inode()), new_entry(name, CREATED_INODE))
}

/// The block written for a file's content: the content, then zero bytes.
pub open spec fn content_block(content: Seq<u8>) -> Seq<u8> {
    splice(zero_block(), 0, content)
}

/// The disk after writing `content` to the file of inode number `ino`.
pub open spec fn written(d: Seq<Seq<u8>>, ino: u32, content: Seq<u8>) -> Seq<Seq<u8>> {
    let inode = inode_of(d, ino as int);
    with_inode(
        d.update(FILE_DATA_BLOCK as int, content_block(content)),
        ino as int,
        Inode { size: content.len() as u32, block: FILE_DATA_BLOCK as u32, file_type: inode.file_type },
    )
}

/// The content of the file of inode number `ino` on `d`.
pub open spec fn content_of(d: Seq<Seq<u8>>, ino: u32) -> Seq<u8> {
    let inode = inode_of(d, ino as int);
    d[inode.block as int].take(inode.size as int)
}

/// Whether `a` and `b` hold the same bytes.
fn bytes_equal(a: &[u8], b: &[u8]) -> (eq: bool)
    ensures
        eq == (a@ == b@),
{
    if a.len() != b.len() {
        return false;
    }
    let mut i: usize = 0;
    while i < a.len()
        invariant
            a@.len() == b@.len(),
            i <= a@.len(),
            forall|j: int| 0 <= j < i ==> a@[j] == b@[j],
        decreases a@.len() - i,
    {
        if a[i] != b[i] {
            return false;
        }
        i = i + 1;
    }
    assert(a@ =~= b@);
    true
}

/// A file system kept on an in-memory disk: inodes in blocks
/// `INODE_START..DATA_START`, and one root directory whose block inode 0 records.
pub struct FileSystem {
    pub disk: Disk,
}

impl FileSystem {
    /// The disk holds all its blocks.
    pub open spec fn wf(&self) -> bool {
        self.disk.wf()
    }

    /// A file system on a disk whose blocks all hold zero bytes.
    pub fn new() -> (fs: Self)
        ensures
            fs.wf(),
            forall|i: int| 0 <= i < NUM_BLOCKS ==> #[trigger] fs.disk@[i] == zero_block(),
    {
        FileSystem { disk: Disk::new() }
    }

    /// Writes the root directory's inode: an empty directory in block `DATA_START`.
    pub fn init(&mut self)
        requires
            old(self).wf(),
        ensures
            final(self).wf(),
            final(self).disk@ == with_inode(old(self).disk@, 0, root_inode()),
    {
        let root_inode = Inode { size: 0, block: DATA_START as u32, file_type: FILE_TYPE_DIR };
        self.write_inode(0, root_inode)
    }

    /// The inode stored for inode number `inode_num`.
    pub fn read_inode(&self, inode_num: usize) -> (inode: Inode)
        requires
            self.wf(),
            INODE_START + inode_num < NUM_BLOCKS,
        ensures
            inode == inode_of(self.disk@, inode_num as int),
    {
        let block = INODE_START + inode_num;
        let data = self.disk.read_block(block);
        Inode::from_block(&data)
    }

    /// Stores `inode` for inode number `inode_num`, replacing its whole block.
    pub fn write_inode(&mut self, inode_num: usize, inode: Inode)
        requires
            old(self).wf(),
            INODE_START + inode_num < NUM_BLOCKS,
        ensures
            final(self).wf(),
            final(self).disk@ == with_inode(old(self).disk@, inode_num as int, inode),
    {
        let block = INODE_START + inode_num;
        let buf = inode.to_block();
        self.disk.write_block(block, buf);
    }

    /// Writes an entry naming `inode_num` under `name` into the first free slot
    /// of the root directory; when every slot is taken, nothing changes.
    pub fn add_dir_entry(&mut self, name: &str, inode_num: u32)
        requires
            old(self).wf(),
            root_dir_block(old(self).disk@) < NUM_BLOCKS,
        ensures
            final(self).wf(),
            final(self).disk@ == with_dir_entry(old(self).disk@, new_entry(name.spec_bytes(), inode_num)),
    {
        let root = self.read_inode(0);
        let block = root.block as usize;
        let mut data = self.disk.read_block(block);
        let entry = DirEntry::new(name, inode_num);
        let ghost entries = dir_entries(data@);
        let mut i: usize = 0;
        while i < ENTRIES_PER_BLOCK
            invariant
                self.wf(),
                self.disk@ == old(self).disk@,
                block == root_dir_block(old(self).disk@),
                block < NUM_BLOCKS,
                data@ == old(self).disk@[block as int],
                entries == dir_entries(data@),
                entries == root_entries(old(self).disk@),
                entry@ == new_entry(name.spec_bytes(), inode_num),
                i <= ENTRIES_PER_BLOCK,
                first_free_from(entries, 0) == first_free_from(entries, i as int),
            decreases ENTRIES_PER_BLOCK - i,
        {
            let offset = i * DIR_ENTRY_BYTES;
            let existing = DirEntry::from_block(&data, offset);
            assert(existing@ == entries[i as int]);
            if existing.inode == 0 {
                entry.write_to(&mut data, offset);
                self.disk.write_block(block, data);
                return;
            }
            i = i + 1;
        }
    }

    /// Creates a file named `name`: writes a fresh file inode as inode number
    /// `CREATED_INODE` and enters the name into the root directory.
    pub fn create(&mut self, name: &str)
        requires
            old(self).wf(),
            root_dir_block(old(self).disk@) < NUM_BLOCKS,
        ensures
            final(self).wf(),
            final(self).disk@ == created(old(self).disk@, name.spec_bytes()),
    {
        let inode_num: usize = 1;
        let inode = Inode { size: 0, block: 0, file_type: FILE_TYPE_FILE };
        self.write_inode(inode_num, inode);
        assert(self.disk@[INODE_START as int] == old(self).disk@[INODE_START as int]);
        self.add_dir_entry(name, inode_num as u32);
    }

    /// Looks `name` up in the root directory, slot by slot: the first live
    /// entry whose name equals `name` gives `Found`; a live entry met before
    /// that whose recorded name length exceeds `NAME_CAPACITY` gives `BadName`.
    pub fn lookup_name(&self, name: &str) -> (found: Lookup)
        requires
            self.wf(),
            root_dir_block(self.disk@) < NUM_BLOCKS,
        ensures
            found == lookup(self.disk@, name.spec_bytes()),
    {
        let root = self.read_inode(0);
        let block = root.block as usize;
        let data = self.disk.read_block(block);
        let wanted = name.as_bytes();
        let ghost entries = dir_entries(data@);
        let mut i: usize = 0;
        while i < ENTRIES_PER_BLOCK
            invariant
                block == root_dir_block(self.disk@),
                block < NUM_BLOCKS,
                data@ == self.disk@[block as int],
                entries == dir_entries(data@),
                entries == root_entries(self.disk@),
                wanted@ == name.spec_bytes(),
                i <= ENTRIES_PER_BLOCK,
                lookup(self.disk@, name.spec_bytes()) == lookup_from(entries, wanted@, i as int),
            decreases ENTRIES_PER_BLOCK - i,
        {
            let offset = i * DIR_ENTRY_BYTES;
            let entry = DirEntry::from_block(&data, offset);
            assert(entry@ == entries[i as int]);
            if entry.inode != 0 {
                if entry.name_len as usize > NAME_CAPACITY {
                    return Lookup::BadName;
                }
                let name_bytes = slice_subrange(entry.name.as_slice(), 0, entry.name_len as usize);
                if bytes_equal(name_bytes, wanted) {
                    return Lookup::Found(entry.inode);
                }
            }
            i = i + 1;
        }
        Lookup::Missing
    }

    /// The inode number that the root directory gives `name`, if any.
    pub fn find_inode(&self, name: &str) -> (found: Option<u32>)
        requires
            self.wf(),
            root_dir_block(self.disk@) < NUM_BLOCKS,
            !(lookup(self.disk@, name.spec_bytes()) is BadName),
        ensures
            found == (match lookup(self.disk@, name.spec_bytes()) {
                Lookup::Found(n) => Some(n),
                _ => None,
            }),
    {
        match self.lookup_name(name) {
            Lookup::Found(n) => Some(n),
            _ => None,
        }
    }

    /// Writes `content` as the content of the file named `name`: the content
    /// goes to block `FILE_DATA_BLOCK`, and the file's inode records its size
    /// and that block.
    pub fn write_file(&mut self, name: &str, content: &str)
        requires
            old(self).wf(),
            root_dir_block(old(self).disk@) < NUM_BLOCKS,
            lookup(old(self).disk@, name.spec_bytes()) is Found,
            INODE_START + lookup(old(self).disk@, name.spec_bytes()).inode() < NUM_BLOCKS,
            content.spec_bytes().len() <= BLOCK_SIZE,
        ensures
            final(self).wf(),
            final(self).disk@ == written(
                old(self).disk@,
                lookup(old(self).disk@, name.spec_bytes()).inode(),
                content.spec_bytes(),
            ),
    {
        let inode_num = match self.find_inode(name) {
            Some(n) => n,
            None => vstd::pervasive::unreached(),
        };
        let mut inode = self.read_inode(inode_num as usize);
        let block = FILE_DATA_BLOCK;
        let mut buf: [u8; BLOCK_SIZE] = [0u8; BLOCK_SIZE];
        assert(buf@ == zero_block());
        let bytes = content.as_bytes();
        copy_into(&mut buf, 0, bytes);
        self.disk.write_block(block, buf);
        inode.size = bytes.len() as u32;
        inode.block = block as u32;
        self.write_inode(inode_num as usize, inode);
    }

    /// The content of the file named `name` as text: the first `size` bytes
    /// of the block its inode records, decoded as UTF-8; `None` when those
    /// bytes are not valid UTF-8.
    pub fn read_file(&self, name: &str) -> (text: Option<String>)
        requires
            self.wf(),
            root_dir_block(self.disk@) < NUM_BLOCKS,
            lookup(self.disk@, name.spec_bytes()) is Found,
            INODE_START + lookup(self.disk@, name.spec_bytes()).inode() < NUM_BLOCKS,
            inode_of(self.disk@, lookup(self.disk@, name.spec_bytes()).inode() as int).block < NUM_BLOCKS,
            inode_of(self.disk@, lookup(self.disk@, name.spec_bytes()).inode() as int).size <= BLOCK_SIZE,
        ensures
            ({
                let content = content_of(self.disk@, lookup(self.disk@, name.spec_bytes()).inode());
                &&& text is Some <==> valid_utf8(content)
                &&& text matches Some(t) ==> t@ == decode_utf8(content)
            }),
    {
        let inode_num = match self.find_inode(name) {
            Some(n) => n,
            None => vstd::pervasive::unreached(),
        };
        let inode = self.read_inode(inode_num as usize);
        let data = self.disk.read_block(inode.block as usize);
        let size = inode.size as usize;
        match str_from_utf8(slice_subrange(data.as_slice(), 0, size)) {
            Some(t) => Some(t.to_owned()),
            None => None,
        }
    }
}

} // verus!
