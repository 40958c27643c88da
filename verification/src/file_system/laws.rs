use vstd::prelude::*;
use vstd::utf8::{decode_utf8, encode_utf8, encode_utf8_decode_utf8, encode_utf8_valid_utf8, valid_utf8};
use crate::file_system::block::{le_u32, zero_block, BLOCK_SIZE, NUM_BLOCKS};
use crate::file_system::dir::{
    lemma_with_entry, new_entry, with_entry, DirEntryView, ENTRIES_PER_BLOCK, NAME_CAPACITY,
};
use crate::file_system::fs::{
    content_block, content_of, created, created_inode, first_free_from, inode_of, lookup,
    lookup_from, root_dir_block, root_entries, root_inode, with_inode, written, Lookup,
    CREATED_INODE, DATA_START, FILE_DATA_BLOCK, INODE_START,
};
use crate::file_system::inode::{lemma_inode_block_roundtrip, Inode, FILE_TYPE_FILE};

verus! {

/// Every block of `d` is `BLOCK_SIZE` bytes long, and there are `NUM_BLOCKS` of them.
pub open spec fn disk_shaped(d: Seq<Seq<u8>>) -> bool {
    &&& d.len() == NUM_BLOCKS
    &&& forall|i: int| 0 <= i < NUM_BLOCKS ==> (#[trigger] d[i]).len() == BLOCK_SIZE
}

/// Reading an inode back after writing it gives what was written, and the
/// other inodes keep theirs.
pub proof fn lemma_read_inode_after_write(d: Seq<Seq<u8>>, n: int, m: int, inode: Inode)
    requires
        disk_shaped(d),
        0 <= INODE_START + n < NUM_BLOCKS,
        0 <= INODE_START + m < NUM_BLOCKS,
    ensures
        inode_of(with_inode(d, n, inode), n) == inode,
        m != n ==> inode_of(with_inode(d, n, inode), m) == inode_of(d, m),
{
    lemma_inode_block_roundtrip(inode);
}

/// A name that lookup finds names a live (nonzero) inode.
pub proof fn lemma_found_is_live(entries: Seq<DirEntryView>, name: Seq<u8>, i: int)
    requires
        lookup_from(entries, name, i) is Found,
    ensures
        lookup_from(entries, name, i).inode() != 0,
    decreases entries.len() - i,
{
    if 0 <= i < entries.len() {
        let e = entries[i];
        if !(e.inode != 0 && e.name_len > NAME_CAPACITY) && !(e.inode != 0 && e.name.take(
            e.name_len as int,
        ) == name) {
            lemma_found_is_live(entries, name, i + 1);
        }
    }
}

/// Writing a file's content and reading it back gives that content, as long as
/// the root directory, the file's inode and the content block are three
/// different blocks. The name still finds the same inode afterwards.
pub proof fn lemma_read_file_after_write(d: Seq<Seq<u8>>, name: Seq<u8>, content: Seq<u8>)
    requires
        disk_shaped(d),
        root_dir_block(d) < NUM_BLOCKS,
        lookup(d, name) is Found,
        INODE_START + lookup(d, name).inode() < NUM_BLOCKS,
        content.len() <= BLOCK_SIZE,
        root_dir_block(d) != FILE_DATA_BLOCK,
        root_dir_block(d) != INODE_START + lookup(d, name).inode(),
        INODE_START + lookup(d, name).inode() != FILE_DATA_BLOCK,
    ensures
        ({
            let ino = lookup(d, name).inode();
            let d2 = written(d, ino, content);
            &&& disk_shaped(d2)
            &&& root_dir_block(d2) == root_dir_block(d)
            &&& lookup(d2, name) == lookup(d, name)
            &&& inode_of(d2, ino as int).block < NUM_BLOCKS
            &&& inode_of(d2, ino as int).size <= BLOCK_SIZE
            &&& content_of(d2, ino) == content
        }),
{
    let ino = lookup(d, name).inode();
    lemma_found_is_live(root_entries(d), name, 0);
    let new_inode = Inode {
        size: content.len() as u32,
        block: FILE_DATA_BLOCK as u32,
        file_type: inode_of(d, ino as int).file_type,
    };
    lemma_inode_block_roundtrip(new_inode);
    let d1 = d.update(FILE_DATA_BLOCK as int, content_block(content));
    let d2 = written(d, ino, content);
    assert(d2 == with_inode(d1, ino as int, new_inode));
    assert(d2[INODE_START as int] == d[INODE_START as int]);
    assert(d2[root_dir_block(d)] == d[root_dir_block(d)]);
    assert(inode_of(d2, ino as int) == new_inode);
    assert(d2[FILE_DATA_BLOCK as int] == content_block(content));
    assert(content_block(content).take(content.len() as int) =~= content);
}

/// Text written to a file reads back, decoded as UTF-8, as that text, under
/// the same conditions as `lemma_read_file_after_write`.
pub proof fn lemma_read_text_after_write(d: Seq<Seq<u8>>, name: Seq<u8>, text: Seq<char>)
    requires
        disk_shaped(d),
        root_dir_block(d) < NUM_BLOCKS,
        lookup(d, name) is Found,
        INODE_START + lookup(d, name).inode() < NUM_BLOCKS,
        encode_utf8(text).len() <= BLOCK_SIZE,
        root_dir_block(d) != FILE_DATA_BLOCK,
        root_dir_block(d) != INODE_START + lookup(d, name).inode(),
        INODE_START + lookup(d, name).inode() != FILE_DATA_BLOCK,
    ensures
        ({
            let ino = lookup(d, name).inode();
            let d2 = written(d, ino, encode_utf8(text));
            &&& lookup(d2, name) == lookup(d, name)
            &&& valid_utf8(content_of(d2, ino))
            &&& decode_utf8(content_of(d2, ino)) == text
        }),
{
    lemma_read_file_after_write(d, name, encode_utf8(text));
    encode_utf8_valid_utf8(text);
    encode_utf8_decode_utf8(text);
}

/// Lookup over entries where one slot at or after `j` got the entry `e`: when
/// the old entries lead to `Missing` from `j` on, the new ones lead to `e`.
proof fn lemma_lookup_finds_inserted(
    entries: Seq<DirEntryView>,
    name: Seq<u8>,
    e: DirEntryView,
    k: int,
    j: int,
)
    requires
        0 <= j <= k < entries.len(),
        lookup_from(entries, name, j) is Missing,
        e.inode != 0,
        e.name_len <= NAME_CAPACITY,
        e.name.take(e.name_len as int) == name,
    ensures
        lookup_from(entries.update(k, e), name, j) == Lookup::Found(e.inode),
    decreases k - j,
{
    if j < k {
        lemma_lookup_finds_inserted(entries, name, e, k, j + 1);
    }
}

/// The first free slot, when there is one, lies at or after `i`, is free, and
/// every slot before it from `i` on is taken.
proof fn lemma_first_free(entries: Seq<DirEntryView>, i: int)
    requires
        0 <= i,
        first_free_from(entries, i) is Some,
    ensures
        i <= first_free_from(entries, i)->0 < entries.len(),
        entries[first_free_from(entries, i)->0].inode == 0,
    decreases entries.len() - i,
{
    if i < entries.len() && entries[i].inode != 0 {
        lemma_first_free(entries, i + 1);
    }
}

/// Creating a file under a name the root directory does not hold yet, while
/// a slot is free, makes the name find the created inode. The root directory
/// must not share a block with inode 0 or with the created inode, and the name
/// must fit an entry.
pub proof fn lemma_find_after_create(d: Seq<Seq<u8>>, name: Seq<u8>)
    requires
        disk_shaped(d),
        root_dir_block(d) < NUM_BLOCKS,
        root_dir_block(d) != INODE_START,
        root_dir_block(d) != INODE_START + CREATED_INODE,
        lookup(d, name) is Missing,
        first_free_from(root_entries(d), 0) is Some,
        name.len() <= NAME_CAPACITY,
    ensures
        lookup(created(d, name), name) == Lookup::Found(CREATED_INODE),
{
    let b = root_dir_block(d);
    let d1 = with_inode(d, CREATED_INODE as int, created_inode());
    assert(d1[INODE_START as int] == d[INODE_START as int]);
    assert(root_dir_block(d1) == b);
    assert(d1[b] == d[b]);
    assert(root_entries(d1) == root_entries(d));
    let e = new_entry(name, CREATED_INODE);
    let entries = root_entries(d);
    lemma_first_free(entries, 0);
    let k = first_free_from(entries, 0)->0;
    lemma_with_entry(d[b], k, e);
    let d2 = created(d, name);
    assert(d2 == d1.update(b, with_entry(d[b], k, e)));
    assert(d2[INODE_START as int] == d[INODE_START as int]);
    assert(root_dir_block(d2) == b);
    assert(root_entries(d2) == entries.update(k, e));
    assert(e.name_len == name.len());
    assert(e.name.take(e.name_len as int) =~= name);
    lemma_lookup_finds_inserted(entries, name, e, k, 0);
}

/// On a disk of zero bytes, once `init` has written the root directory's inode,
/// the root directory lives in block `DATA_START`, holds no name, and has a free slot.
pub proof fn lemma_fresh_root_directory(d: Seq<Seq<u8>>, name: Seq<u8>)
    requires
        d.len() == NUM_BLOCKS,
        forall|i: int| 0 <= i < NUM_BLOCKS ==> #[trigger] d[i] == zero_block(),
    ensures
        ({
            let d1 = with_inode(d, 0, root_inode());
            &&& disk_shaped(d1)
            &&& root_dir_block(d1) == DATA_START
            &&& lookup(d1, name) is Missing
            &&& first_free_from(root_entries(d1), 0) == Some(0int)
        }),
{
    let d1 = with_inode(d, 0, root_inode());
    lemma_inode_block_roundtrip(root_inode());
    assert(inode_of(d1, 0) == root_inode());
    assert(d1[DATA_START as int] == zero_block());
    let entries = root_entries(d1);
    assert forall|i: int| 0 <= i < ENTRIES_PER_BLOCK implies (#[trigger] entries[i]).inode == 0 by {
        let s = zero_block().subrange(i * 24, i * 24 + 4);
        assert(s[0] == 0 && s[1] == 0 && s[2] == 0 && s[3] == 0);
        assert(le_u32(s) == 0);
    }
    lemma_missing_when_all_free(entries, name, 0);
}

/// Entries that are all free hold no name.
proof fn lemma_missing_when_all_free(entries: Seq<DirEntryView>, name: Seq<u8>, i: int)
    requires
        0 <= i,
        forall|j: int| 0 <= j < entries.len() ==> (#[trigger] entries[j]).inode == 0,
    ensures
        lookup_from(entries, name, i) is Missing,
    decreases entries.len() - i,
{
    if i < entries.len() {
        lemma_missing_when_all_free(entries, name, i + 1);
    }
}

/// On a freshly initialised file system, a file created under a name that fits
/// an entry is found under that name, as the created inode; writing content to
/// it and reading it back gives that content.
pub proof fn lemma_fresh_create_write_read(d: Seq<Seq<u8>>, name: Seq<u8>, content: Seq<u8>)
    requires
        d.len() == NUM_BLOCKS,
        forall|i: int| 0 <= i < NUM_BLOCKS ==> #[trigger] d[i] == zero_block(),
        name.len() <= NAME_CAPACITY,
        content.len() <= BLOCK_SIZE,
    ensures
        ({
            let d1 = created(with_inode(d, 0, root_inode()), name);
            let d2 = written(d1, CREATED_INODE, content);
            &&& lookup(d1, name) == Lookup::Found(CREATED_INODE)
            &&& root_dir_block(d1) == DATA_START
            &&& lookup(d2, name) == Lookup::Found(CREATED_INODE)
            &&& content_of(d2, CREATED_INODE) == content
        }),
{
    let d0 = with_inode(d, 0, root_inode());
    lemma_fresh_root_directory(d, name);
    lemma_find_after_create(d0, name);
    let d1 = created(d0, name);
    assert(disk_shaped(d1)) by {
        assert forall|i: int| 0 <= i < NUM_BLOCKS implies (#[trigger] d1[i]).len() == BLOCK_SIZE by {
            lemma_inode_block_roundtrip(root_inode());
            lemma_inode_block_roundtrip(created_inode());
            lemma_first_free(root_entries(d0), 0);
            let k = first_free_from(root_entries(d0), 0)->0;
            let e = new_entry(name, CREATED_INODE);
            lemma_with_entry(d0[DATA_START as int], k, e);
        }
    }
    assert(d1[INODE_START as int] == d0[INODE_START as int]);
    lemma_read_file_after_write(d1, name, content);
}

/// What lookup finds from slot `i` on is an exact match: a live slot at or
/// after `i` names that inode under exactly `name`, within the name capacity.
/// When lookup misses, no live slot from `i` on has exactly that name.
proof fn lemma_lookup_from_exact(entries: Seq<DirEntryView>, name: Seq<u8>, i: int)
    requires
        0 <= i,
    ensures
        lookup_from(entries, name, i) is Found ==> exists|j: int|
            #![trigger entries[j]]
            i <= j < entries.len() && entries[j].inode != 0 && entries[j].inode == lookup_from(
                entries,
                name,
                i,
            ).inode() && entries[j].name_len <= NAME_CAPACITY && entries[j].name.take(
                entries[j].name_len as int,
            ) == name,
        lookup_from(entries, name, i) is Missing ==> forall|j: int|
            #![trigger entries[j]]
            i <= j < entries.len() && entries[j].inode != 0 ==> entries[j].name_len <= NAME_CAPACITY
                && entries[j].name.take(entries[j].name_len as int) != name,
    decreases entries.len() - i,
{
    if i < entries.len() {
        lemma_lookup_from_exact(entries, name, i + 1);
    }
}

/// Lookup matches names exactly: when it finds an inode, some live slot of the
/// root directory records that inode under exactly `name` (not a longer or
/// shorter name); when it misses, no live slot records exactly `name`.
pub proof fn lemma_lookup_is_exact(d: Seq<Seq<u8>>, name: Seq<u8>)
    ensures
        lookup(d, name) is Found ==> exists|j: int|
            #![trigger root_entries(d)[j]]
            0 <= j < ENTRIES_PER_BLOCK && root_entries(d)[j].inode != 0 && root_entries(d)[j].inode
                == lookup(d, name).inode() && root_entries(d)[j].name_len <= NAME_CAPACITY
                && root_entries(d)[j].name.take(root_entries(d)[j].name_len as int) == name,
        lookup(d, name) is Missing ==> forall|j: int|
            #![trigger root_entries(d)[j]]
            0 <= j < ENTRIES_PER_BLOCK && root_entries(d)[j].inode != 0 ==> root_entries(d)[j].name.take(
                root_entries(d)[j].name_len as int,
            ) != name,
{
    lemma_lookup_from_exact(root_entries(d), name, 0);
}

/// On a freshly initialised file system holding one created file, lookup
/// finds that file's name, as the created inode, and no other name.
pub proof fn lemma_fresh_create_finds_only_its_name(d: Seq<Seq<u8>>, a: Seq<u8>, b: Seq<u8>)
    requires
        d.len() == NUM_BLOCKS,
        forall|i: int| 0 <= i < NUM_BLOCKS ==> #[trigger] d[i] == zero_block(),
        a.len() <= NAME_CAPACITY,
    ensures
        lookup(created(with_inode(d, 0, root_inode()), a), b) == (if b == a {
            Lookup::Found(CREATED_INODE)
        } else {
            Lookup::Missing
        }),
{
    let d0 = with_inode(d, 0, root_inode());
    lemma_fresh_root_directory(d, b);
    lemma_fresh_root_directory(d, a);
    lemma_find_after_create(d0, a);
    let d1 = created(d0, a);
    if b != a {
        let e = new_entry(a, CREATED_INODE);
        let entries = root_entries(d0);
        lemma_with_entry(d0[DATA_START as int], 0, e);
        let d01 = with_inode(d0, CREATED_INODE as int, created_inode());
        assert(d01[INODE_START as int] == d0[INODE_START as int]);
        assert(d01[DATA_START as int] == d0[DATA_START as int]);
        assert(root_entries(d01) == entries);
        assert(d1 == d01.update(DATA_START as int, with_entry(d0[DATA_START as int], 0, e)));
        assert(d1[INODE_START as int] == d0[INODE_START as int]);
        let ne = root_entries(d1);
        assert(ne == entries.update(0, e));
        assert(e.name.take(e.name_len as int) =~= a);
        assert(lookup_from(entries, b, 0) is Missing);
        lemma_lookup_from_exact(entries, b, 0);
        lemma_missing_after_slot(ne, b, 1);
        assert(lookup_from(ne, b, 0) == lookup_from(ne, b, 1));
    }
}

/// Slots from `i` on that are all free hold no name.
proof fn lemma_missing_after_slot(entries: Seq<DirEntryView>, name: Seq<u8>, i: int)
    requires
        0 <= i,
        forall|j: int| i <= j < entries.len() ==> (#[trigger] entries[j]).inode == 0,
    ensures
        lookup_from(entries, name, i) is Missing,
    decreases entries.len() - i,
{
    if i < entries.len() {
        lemma_missing_after_slot(entries, name, i + 1);
    }
}

/// Creating a file always writes a fresh, empty file inode as the created
/// inode, whether or not the name was there before, and the file then holds
/// no content; this needs only that the root directory lies in none of the
/// blocks inode 0 and the created inode use.
pub proof fn lemma_create_makes_empty_file(d: Seq<Seq<u8>>, name: Seq<u8>)
    requires
        disk_shaped(d),
        root_dir_block(d) < NUM_BLOCKS,
        root_dir_block(d) != INODE_START + CREATED_INODE,
    ensures
        inode_of(created(d, name), CREATED_INODE as int) == (Inode {
            size: 0,
            block: 0,
            file_type: FILE_TYPE_FILE,
        }),
        content_of(created(d, name), CREATED_INODE).len() == 0,
{
    lemma_inode_block_roundtrip(created_inode());
    let d1 = with_inode(d, CREATED_INODE as int, created_inode());
    assert(d1[INODE_START as int] == d[INODE_START as int]);
    assert(root_dir_block(d1) == root_dir_block(d));
    let d2 = created(d, name);
    assert(d2[INODE_START + CREATED_INODE] == d1[INODE_START + CREATED_INODE]);
}

} // verus!
