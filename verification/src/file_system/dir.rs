use vstd::prelude::*;
use vstd::string::StringSliceAdditionalSpecFns;
use crate::file_system::block::{
    le_u32, lemma_u32_le_roundtrip, read_u32, splice, u32_le, write_u32, BLOCK_SIZE,
};

verus! {

/// Number of name bytes a directory entry holds.
pub const NAME_CAPACITY: usize = 16;

/// Number of bytes a directory entry occupies in a directory block.
pub const DIR_ENTRY_BYTES: usize = 24;

/// Number of directory entries that fit in one block (`BLOCK_SIZE / DIR_ENTRY_BYTES`).
pub const ENTRIES_PER_BLOCK: usize = 21;

/// One entry of a directory: the inode it names (0 marks a free slot), the
/// length of the name as given (kept to 8 bits), and up to 16 bytes of the name.
#[derive(Clone, Copy)]
pub struct DirEntry {
    pub inode: u32,
    pub name_len: u8,
    pub name: [u8; NAME_CAPACITY],
}

/// The content of a directory entry, with the name bytes as a sequence.
pub struct DirEntryView {
    pub inode: u32,
    pub name_len: u8,
    pub name: Seq<u8>,
}

impl View for DirEntry {
    type V = DirEntryView;

    open spec fn view(&self) -> DirEntryView {
        DirEntryView { inode: self.inode, name_len: self.name_len, name: self.name@ }
    }
}

/// The name field that holds `name`: its first 16 bytes, then zero bytes.
pub open spec fn name_field(name: Seq<u8>) -> Seq<u8> {
    Seq::new(NAME_CAPACITY as nat, |i: int| if i < name.len() { name[i] } else { 0u8 })
}

/// The entry that names `inode` under the name whose bytes are `name`.
pub open spec fn new_entry(name: Seq<u8>, inode: u32) -> DirEntryView {
    DirEntryView { inode, name_len: (name.len() % 256) as u8, name: name_field(name) }
}

/// On-disk layout of an entry: `inode` as little-endian `u32`, `name_len`,
/// the 16 name bytes, then three bytes of padding.
pub open spec fn entry_bytes(e: DirEntryView) -> Seq<u8> {
    u32_le(e.inode) + seq![e.name_len] + e.name + seq![0u8, 0u8, 0u8]
}

/// The entry stored at the start of the bytes `b`.
pub open spec fn entry_from_bytes(b: Seq<u8>) -> DirEntryView {
    DirEntryView {
        inode: le_u32(b.subrange(0, 4)),
        name_len: b[4],
        name: b.subrange(5, 21),
    }
}

/// Offset of slot `i` in a directory block.
pub open spec fn slot_offset(i: int) -> int {
    i * DIR_ENTRY_BYTES
}

/// The entries held by a directory block.
pub open spec fn dir_entries(b: Seq<u8>) -> Seq<DirEntryView> {
    Seq::new(
        ENTRIES_PER_BLOCK as nat,
        |i: int| entry_from_bytes(b.subrange(slot_offset(i), slot_offset(i) + DIR_ENTRY_BYTES)),
    )
}

/// The block `b` with entry `e` written into slot `i`.
pub open spec fn with_entry(b: Seq<u8>, i: int, e: DirEntryView) -> Seq<u8> {
    splice(b, slot_offset(i), entry_bytes(e))
}

/// Reading back the layout of an entry gives that entry.
pub proof fn lemma_entry_roundtrip(e: DirEntryView)
    requires
        e.name.len() == NAME_CAPACITY,
    ensures
        entry_bytes(e).len() == DIR_ENTRY_BYTES,
        entry_from_bytes(entry_bytes(e)) == e,
{
    lemma_u32_le_roundtrip(e.inode);
    let b = entry_bytes(e);
    assert(b.subrange(0, 4) =~= u32_le(e.inode));
    assert(b.subrange(5, 21) =~= e.name);
}

/// Writing an entry into slot `i` of a block makes slot `i` hold that entry,
/// and leaves every other slot as it was.
pub proof fn lemma_with_entry(b: Seq<u8>, i: int, e: DirEntryView)
    requires
        b.len() == BLOCK_SIZE,
        0 <= i < ENTRIES_PER_BLOCK,
        e.name.len() == NAME_CAPACITY,
    ensures
        with_entry(b, i, e).len() == BLOCK_SIZE,
        dir_entries(with_entry(b, i, e)) == dir_entries(b).update(i, e),
{
    lemma_entry_roundtrip(e);
    let nb = with_entry(b, i, e);
    assert(nb.len() == BLOCK_SIZE);
    let ne = dir_entries(nb);
    let oe = dir_entries(b).update(i, e);
    assert forall|j: int| 0 <= j < ENTRIES_PER_BLOCK implies #[trigger] ne[j] == oe[j] by {
        let lo = slot_offset(j);
        if j == i {
            assert(nb.subrange(lo, lo + DIR_ENTRY_BYTES) =~= entry_bytes(e));
        } else {
            assert(nb.subrange(lo, lo + DIR_ENTRY_BYTES) =~= b.subrange(lo, lo + DIR_ENTRY_BYTES));
        }
    }
    assert(ne =~= oe);
}

impl DirEntry {
    /// The entry naming `inode` under `name`: the first 16 bytes of the name are
    /// kept, and `name_len` is the byte length of `name` kept to 8 bits.
    pub fn new(name: &str, inode: u32) -> (entry: Self)
        ensures
            entry@ == new_entry(name.spec_bytes(), inode),
    {
        let mut name_arr: [u8; NAME_CAPACITY] = [0u8; NAME_CAPACITY];
        let bytes = name.as_bytes();
        let len = bytes.len();
        let n = if len < NAME_CAPACITY { len } else { NAME_CAPACITY };
        let mut i: usize = 0;
        while i < n
            invariant
                bytes@ == name.spec_bytes(),
                len == bytes@.len(),
                n <= NAME_CAPACITY,
                n <= len,
                n == len || n == NAME_CAPACITY,
                i <= n,
                forall|j: int| 0 <= j < i ==> name_arr@[j] == bytes@[j],
                forall|j: int| i <= j < NAME_CAPACITY ==> name_arr@[j] == 0u8,
            decreases n - i,
        {
            name_arr[i] = bytes[i];
            i = i + 1;
        }
        let name_len = #[verifier::truncate] (len as u8);
        assert(name_len == (len % 256) as u8) by (bit_vector)
            requires
                name_len == #[verifier::truncate] (len as u8),
        ;
        assert(name_arr@ =~= name_field(bytes@));
        DirEntry { inode, name_len, name: name_arr }
    }

    /// Decodes the entry held in `buf` from position `at` on.
    pub fn from_block(buf: &[u8; BLOCK_SIZE], at: usize) -> (entry: Self)
        requires
            at + DIR_ENTRY_BYTES <= BLOCK_SIZE,
        ensures
            entry@ == entry_from_bytes(buf@.subrange(at as int, at + DIR_ENTRY_BYTES)),
    {
        let inode = read_u32(buf, at);
        let name_len = buf[at + 4];
        let mut name: [u8; NAME_CAPACITY] = [0u8; NAME_CAPACITY];
        let mut i: usize = 0;
        while i < NAME_CAPACITY
            invariant
                at + DIR_ENTRY_BYTES <= BLOCK_SIZE,
                i <= NAME_CAPACITY,
                forall|j: int| 0 <= j < i ==> name@[j] == buf@[at + 5 + j],
            decreases NAME_CAPACITY - i,
        {
            name[i] = buf[at + 5 + i];
            i = i + 1;
        }
        let ghost b = buf@.subrange(at as int, at + DIR_ENTRY_BYTES);
        assert(b.subrange(0, 4) =~= buf@.subrange(at as int, at + 4));
        assert(name@ =~= b.subrange(5, 21));
        DirEntry { inode, name_len, name }
    }

    /// Writes this entry into `buf` from position `at` on; the other bytes stay.
    pub fn write_to(&self, buf: &mut [u8; BLOCK_SIZE], at: usize)
        requires
            at + DIR_ENTRY_BYTES <= BLOCK_SIZE,
        ensures
            final(buf)@ == splice(old(buf)@, at as int, entry_bytes(self@)),
    {
        let ghost before = buf@;
        write_u32(buf, at, self.inode);
        buf[at + 4] = self.name_len;
        let mut i: usize = 0;
        while i < NAME_CAPACITY
            invariant
                at + DIR_ENTRY_BYTES <= BLOCK_SIZE,
                i <= NAME_CAPACITY,
                buf@.len() == BLOCK_SIZE,
                forall|j: int| 0 <= j < at ==> buf@[j] == before[j],
                buf@.subrange(at as int, at + 4) == u32_le(self.inode),
                buf@[at + 4] == self.name_len,
                forall|j: int| 0 <= j < i ==> buf@[at + 5 + j] == self.name@[j],
                forall|j: int| at + 5 + NAME_CAPACITY <= j < BLOCK_SIZE ==> buf@[j] == before[j],
            decreases NAME_CAPACITY - i,
        {
            buf[at + 5 + i] = self.name[i];
            i = i + 1;
        }
        buf[at + 21] = 0;
        buf[at + 22] = 0;
        buf[at + 23] = 0;
        assert(buf@.subrange(at as int, at + 4) =~= u32_le(self.inode));
        assert(buf@ =~= splice(before, at as int, entry_bytes(self@)));
    }
}

} // verus!
