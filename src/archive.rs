//! Packing a snapshot tree into one compressed archive.
use std::io::Cursor;
use std::io::Write;
use vstd::prelude::*;
use zip::result::ZipError;
use zip::write::SimpleFileOptions;
use zip::{CompressionMethod, ZipWriter};

use crate::text::{chars_of, extend_chars, string_of};

verus! {

/// An archive being written into memory. `zip::ZipWriter` is generic over its sink with
/// `Write + Seek` bounds, which Verus cannot declare, so it is held here opaquely.
#[verifier::external_body]
pub struct ArchiveWriter {
    inner: ZipWriter<Cursor<Vec<u8>>>,
}

#[verifier::external_type_specification]
#[verifier::external_body]
pub struct ExZipError(ZipError);

/// The entries an in-memory archive writer holds, in the order they were added. Each is
/// (name, is a directory, data, deflated, permission bits).
pub uninterp spec fn zip_entries(w: ArchiveWriter) -> Seq<(Seq<char>, bool, Seq<u8>, bool, u32)>;

/// The names of a list of entries.
pub open spec fn entry_names(es: Seq<(Seq<char>, bool, Seq<u8>, bool, u32)>) -> Seq<Seq<char>> {
    es.map_values(|e: (Seq<char>, bool, Seq<u8>, bool, u32)| e.0)
}

/// Largest file, in bytes, whose entry is sure to stay within the archive's 32-bit sizes
/// once compressed.
pub open spec fn max_entry_data() -> nat {
    0x8000_0000
}

/// Every entry's data is small enough for the archive's 32-bit sizes.
pub open spec fn data_bounded(es: Seq<(Seq<char>, bool, Seq<u8>, bool, u32)>) -> bool {
    forall|k: int| 0 <= k < es.len() ==> (#[trigger] es[k]).2.len() <= max_entry_data()
}

/// An entry name short enough for the archive's 16-bit name length in any encoding.
pub open spec fn name_fits(name: Seq<char>) -> bool {
    name.len() < 16383
}

/// The name a directory entry is stored under: with a trailing slash.
pub open spec fn directory_entry_name(name: Seq<char>) -> Seq<char> {
    if name.len() > 0 && (name.last() == '/' || name.last() == '\\') {
        name
    } else {
        name.push('/')
    }
}

/// Relies on `zip::ZipWriter::new` over an empty in-memory buffer: it holds no entries.
#[verifier::external_body]
fn zip_new() -> (w: ArchiveWriter)
    ensures
        zip_entries(w) == Seq::<(Seq<char>, bool, Seq<u8>, bool, u32)>::empty(),
{
    ArchiveWriter { inner: ZipWriter::new(Cursor::new(Vec::new())) }
}

/// Relies on `zip::ZipWriter::add_directory`, with options carrying the permission bits
/// `mode`: writing into memory, it fails only on a name already in the archive (or when
/// finishing an oversized previous file); on success the directory is the last entry,
/// stored without data, its name ending in a slash. A name longer than 65535 bytes makes
/// it panic.
#[verifier::external_body]
fn zip_add_directory(w: &mut ArchiveWriter, name: &str, mode: u32) -> (r: Result<
    (),
    ZipError,
>)
    requires
        name_fits(name@),
        mode <= 0o777,
    ensures
        !entry_names(zip_entries(*old(w))).contains(directory_entry_name(name@)) && data_bounded(
            zip_entries(*old(w)),
        ) ==> r is Ok,
        r is Ok ==> zip_entries(*final(w)) == zip_entries(*old(w)).push(
            (directory_entry_name(name@), true, Seq::<u8>::empty(), false, mode),
        ),
{
    w.inner.add_directory(name, SimpleFileOptions::default().unix_permissions(mode))
}

/// How the data of a file entry is stored.
#[derive(Clone, Copy, Debug, PartialEq, Eq, Structural)]
pub enum EntryCompression {
    Stored,
    Deflated,
}

/// Relies on `zip::ZipWriter::start_file`, with options carrying the compression method
/// and the permission bits `mode`, then on `Write::write_all` of the writer for the data:
/// writing into memory, this fails only on a name already in the archive or on data past
/// the 32-bit size limit; on success the file is the last entry, under the given name,
/// holding `data`. A name longer than 65535 bytes makes it panic.
#[verifier::external_body]
fn zip_add_file(
    w: &mut ArchiveWriter,
    name: &str,
    data: &[u8],
    compression: EntryCompression,
    mode: u32,
) -> (r: Result<(), ZipError>)
    requires
        name_fits(name@),
        mode <= 0o777,
    ensures
        !entry_names(zip_entries(*old(w))).contains(name@) && data_bounded(zip_entries(*old(w)))
            && data@.len() <= max_entry_data() ==> r is Ok,
        r is Ok ==> zip_entries(*final(w)) == zip_entries(*old(w)).push(
            (name@, false, data@, compression == EntryCompression::Deflated, mode),
        ),
{
    let method = match compression {
        EntryCompression::Stored => CompressionMethod::Stored,
        EntryCompression::Deflated => CompressionMethod::Deflated,
    };
    let options = SimpleFileOptions::default().compression_method(method);
    match w.inner.start_file(name, options.unix_permissions(mode)) {
        Ok(()) => w.inner.write_all(data).map_err(ZipError::Io),
        Err(e) => Err(e),
    }
}

/// Relies on `zip::ZipWriter::finish`: the finished archive's bytes. Writing the directory
/// into memory cannot fail once every file is within the size limit.
#[verifier::external_body]
fn zip_finish(w: ArchiveWriter) -> (r: Result<Vec<u8>, ZipError>)
    ensures
        data_bounded(zip_entries(w)) ==> r is Ok,
{
    match w.inner.finish() {
        Ok(c) => Ok(c.into_inner()),
        Err(e) => Err(e),
    }
}

/// Relies on the `Display` text of `zip::result::ZipError`.
#[verifier::external_body]
fn zip_error_text(e: &ZipError) -> (r: String) {
    e.to_string()
}

/// Permission bits stored with every entry.
pub const ENTRY_MODE: u32 = 0o755;

/// How file data is stored in an archive.
pub const FILE_COMPRESSION: EntryCompression = EntryCompression::Deflated;

/// One item of a snapshot tree, named by its path relative to the snapshot root with
/// forward slashes, in the order of a depth-first walk.
#[derive(Clone, Debug)]
pub enum ArchiveItem {
    Directory(String),
    File(String, Vec<u8>),
}

/// Why packing failed, with the underlying error's text.
#[derive(Clone, Debug, PartialEq, Eq)]
pub enum PackFailure {
    /// The archive format refused an entry or could not be finished.
    Encoding(String),
    /// Reading the snapshot or writing the archive file failed.
    Io(String),
}

/// How packing a snapshot ended.
#[derive(Clone, Debug, PartialEq, Eq)]
pub enum PackOutcome {
    /// The archive was written to this path.
    Success(String),
    /// An archive of this snapshot is already on disk; it was left as it was.
    AlreadyExists,
    /// The snapshot directory is not on disk.
    SourceMissing,
    /// Packing stopped; a partly written archive may remain.
    Failure(PackFailure),
}

impl PackOutcome {
    /// The outcome in the `Kind:Detail` form shown to users.
    pub fn describe(&self) -> (r: String)
        ensures
            r@ == match *self {
                PackOutcome::Success(p) => "Success:"@ + p@,
                PackOutcome::AlreadyExists => "Warning: the archive exists already."@,
                PackOutcome::SourceMissing => "Error: the snapshot does not exist."@,
                PackOutcome::Failure(PackFailure::Encoding(t)) => "Error: compression failed: "@ + t@,
                PackOutcome::Failure(PackFailure::Io(t)) => "Error: I/O failed: "@ + t@,
            },
    {
        match self {
            PackOutcome::Success(p) => {
                let mut v = chars_of("Success:");
                extend_chars(&mut v, &chars_of(p.as_str()));
                string_of(&v)
            },
            PackOutcome::AlreadyExists => string_of(&chars_of("Warning: the archive exists already.")),
            PackOutcome::SourceMissing => string_of(&chars_of("Error: the snapshot does not exist.")),
            PackOutcome::Failure(PackFailure::Encoding(t)) => {
                let mut v = chars_of("Error: compression failed: ");
                extend_chars(&mut v, &chars_of(t.as_str()));
                string_of(&v)
            },
            PackOutcome::Failure(PackFailure::Io(t)) => {
                let mut v = chars_of("Error: I/O failed: ");
                extend_chars(&mut v, &chars_of(t.as_str()));
                string_of(&v)
            },
        }
    }
}

/// The entry name an item is stored under.
pub open spec fn item_entry_name(item: ArchiveItem) -> Seq<char> {
    match item {
        ArchiveItem::Directory(n) => directory_entry_name(n@),
        ArchiveItem::File(n, _) => n@,
    }
}

pub open spec fn item_entry_names(items: Seq<ArchiveItem>) -> Seq<Seq<char>> {
    items.map_values(|i: ArchiveItem| item_entry_name(i))
}

/// The entry an item becomes: a directory without data, or a deflated file holding the
/// item's bytes; both with `ENTRY_MODE`.
pub open spec fn item_entry(item: ArchiveItem) -> (Seq<char>, bool, Seq<u8>, bool, u32) {
    match item {
        ArchiveItem::Directory(n) => (directory_entry_name(n@), true, Seq::empty(), false, ENTRY_MODE),
        ArchiveItem::File(n, d) => (n@, false, d@, true, ENTRY_MODE),
    }
}

pub open spec fn item_entries(items: Seq<ArchiveItem>) -> Seq<(Seq<char>, bool, Seq<u8>, bool, u32)> {
    items.map_values(|i: ArchiveItem| item_entry(i))
}

/// The item's data is within the size an entry is sure to hold.
pub open spec fn item_bounded(item: ArchiveItem) -> bool {
    match item {
        ArchiveItem::Directory(_) => true,
        ArchiveItem::File(_, d) => d@.len() <= max_entry_data(),
    }
}

/// The item's name is short enough for an entry.
pub open spec fn item_name_fits(item: ArchiveItem) -> bool {
    match item {
        ArchiveItem::Directory(n) => name_fits(n@),
        ArchiveItem::File(n, _) => name_fits(n@),
    }
}

/// Adding `items` to an archive holding `es` is owed to succeed: the items' entry names
/// are distinct and new, and every file is within the size limit.
pub open spec fn items_addable(es: Seq<(Seq<char>, bool, Seq<u8>, bool, u32)>, items: Seq<ArchiveItem>) -> bool {
    &&& data_bounded(es)
    &&& item_entry_names(items).no_duplicates()
    &&& forall|k: int| 0 <= k < items.len() ==> !entry_names(es).contains(#[trigger] item_entry_names(items)[k])
    &&& forall|k: int| 0 <= k < items.len() ==> item_bounded(#[trigger] items[k])
}

/// The archive path of entry `name` inside the directory entry `prefix` (empty at the root).
pub open spec fn child_entry(prefix: Seq<char>, name: Seq<char>) -> Seq<char> {
    if prefix.len() == 0 {
        name
    } else {
        prefix + seq!['/'] + name
    }
}

/// `r` is what the archive gate answers for a snapshot and its archive file.
pub open spec fn gate_is(r: Result<(), PackOutcome>, snapshot_exists: bool, archive_exists: bool) -> bool {
    if !snapshot_exists {
        r == Err::<(), PackOutcome>(PackOutcome::SourceMissing)
    } else if archive_exists {
        r == Err::<(), PackOutcome>(PackOutcome::AlreadyExists)
    } else {
        r is Ok
    }
}

/// Packing a snapshot whose archive is already on disk never proceeds to write: a second
/// pack of the same snapshot reports `AlreadyExists` and leaves the first archive as it is.
pub proof fn lemma_second_pack_refused(r: Result<(), PackOutcome>)
    requires
        gate_is(r, true, true),
    ensures
        r == Err::<(), PackOutcome>(PackOutcome::AlreadyExists),
{
}

/// The archive path of entry `name` inside directory entry `prefix` (empty at the root).
pub fn child_entry_name(prefix: &str, name: &str) -> (r: String)
    ensures
        r@ == child_entry(prefix@, name@),
{
    let mut v = chars_of(prefix);
    if v.len() > 0 {
        v.push('/');
    }
    extend_chars(&mut v, &chars_of(name));
    string_of(&v)
}

impl ArchiveWriter {
    /// An empty archive in memory.
    pub fn new() -> (r: ArchiveWriter)
        ensures
            zip_entries(r) == Seq::<(Seq<char>, bool, Seq<u8>, bool, u32)>::empty(),
    {
        zip_new()
    }

    /// Adds the items in order: each directory as an explicit entry without data, each file
    /// deflated with its bytes, all with `ENTRY_MODE`. Success is owed where the entry names
    /// are distinct and new and every file is within the size limit; on success the archive
    /// holds exactly one more entry per item.
    pub fn add_items(&mut self, items: &Vec<ArchiveItem>) -> (r: Result<(), PackFailure>)
        requires
            forall|k: int| 0 <= k < items@.len() ==> item_name_fits(#[trigger] items@[k]),
        ensures
            items_addable(zip_entries(*old(self)), items@) ==> r is Ok,
            r is Ok ==> zip_entries(*final(self)) == zip_entries(*old(self)) + item_entries(items@),
    {
        let ghost start = zip_entries(*self);
        let ghost owed = items_addable(start, items@);
        let mut i: usize = 0;
        assert(zip_entries(*self) =~= start + item_entries(items@).take(0));
        while i < items.len()
            invariant
                i <= items.len(),
                start == zip_entries(*old(self)),
                owed == items_addable(start, items@),
                forall|k: int| 0 <= k < items@.len() ==> item_name_fits(#[trigger] items@[k]),
                zip_entries(*self) == start + item_entries(items@).take(i as int),
                owed ==> data_bounded(zip_entries(*self)),
            decreases items.len() - i,
        {
            let ghost cur = zip_entries(*self);
            let ghost nm = item_entry_names(items@)[i as int];
            proof {
                assert(entry_names(cur) =~= entry_names(start) + item_entry_names(items@).take(i as int));
                if owed {
                    assert(!entry_names(start).contains(nm));
                    assert forall|j: int| 0 <= j < i implies item_entry_names(items@).take(i as int)[j] != nm by {
                        assert(item_entry_names(items@)[j] != item_entry_names(items@)[i as int]);
                    }
                    assert(!entry_names(cur).contains(nm));
                    assert(item_bounded(items@[i as int]));
                }
            }
            match &items[i] {
                ArchiveItem::Directory(name) => {
                    match zip_add_directory(self, name.as_str(), ENTRY_MODE) {
                        Ok(()) => {},
                        Err(e) => {
                            return Err(PackFailure::Encoding(zip_error_text(&e)));
                        },
                    }
                },
                ArchiveItem::File(name, data) => {
                    match zip_add_file(self, name.as_str(), data.as_slice(), FILE_COMPRESSION, ENTRY_MODE) {
                        Ok(()) => {},
                        Err(e) => {
                            return Err(PackFailure::Encoding(zip_error_text(&e)));
                        },
                    }
                },
            }
            proof {
                assert(zip_entries(*self) == cur.push(item_entries(items@)[i as int]));
                assert(item_entries(items@).take(i + 1) =~= item_entries(items@).take(i as int).push(item_entries(items@)[i as int]));
            }
            i += 1;
            assert(zip_entries(*self) =~= start + item_entries(items@).take(i as int));
        }
        assert(item_entries(items@).take(items.len() as int) =~= item_entries(items@));
        Ok(())
    }

    /// The finished archive's bytes; this cannot fail while every file is within the size
    /// limit.
    pub fn finish(self) -> (r: Result<Vec<u8>, PackFailure>)
        ensures
            data_bounded(zip_entries(self)) ==> r is Ok,
    {
        match zip_finish(self) {
            Ok(bytes) => Ok(bytes),
            Err(e) => Err(PackFailure::Encoding(zip_error_text(&e))),
        }
    }
}

/// A snapshot tree as read from disk: each directory with its children in enumeration
/// order, each file with its bytes.
#[derive(Debug)]
pub enum SnapshotNode {
    Directory(String, Vec<SnapshotNode>),
    File(String, Vec<u8>),
}

/// An archive item as plain values: entry path, whether a directory, data.
pub open spec fn item_view(i: ArchiveItem) -> (Seq<char>, bool, Seq<u8>) {
    match i {
        ArchiveItem::Directory(n) => (n@, true, Seq::empty()),
        ArchiveItem::File(n, d) => (n@, false, d@),
    }
}

pub open spec fn items_view(items: Seq<ArchiveItem>) -> Seq<(Seq<char>, bool, Seq<u8>)> {
    items.map_values(|i: ArchiveItem| item_view(i))
}

/// The items of a node inside the directory entry `prefix`, depth first: a directory's own
/// entry comes before those of its children, which follow in enumeration order.
pub open spec fn node_items(n: SnapshotNode, prefix: Seq<char>) -> Seq<(Seq<char>, bool, Seq<u8>)>
    decreases n,
{
    match n {
        SnapshotNode::File(name, d) => seq![(child_entry(prefix, name@), false, d@)],
        SnapshotNode::Directory(name, kids) => {
            let here = child_entry(prefix, name@);
            seq![(here, true, Seq::<u8>::empty())] + nodes_items(kids@, here)
        },
    }
}

/// The items of a sequence of nodes inside the directory entry `prefix`, one after another.
pub open spec fn nodes_items(ns: Seq<SnapshotNode>, prefix: Seq<char>) -> Seq<
    (Seq<char>, bool, Seq<u8>),
>
    decreases ns,
{
    if ns.len() == 0 {
        seq![]
    } else {
        node_items(ns[0], prefix) + nodes_items(ns.subrange(1, ns.len() as int), prefix)
    }
}

/// The items of `ns` followed by those of `n` are the items of `ns` with `n` appended.
proof fn lemma_nodes_items_push(ns: Seq<SnapshotNode>, n: SnapshotNode, prefix: Seq<char>)
    ensures
        nodes_items(ns.push(n), prefix) == nodes_items(ns, prefix) + node_items(n, prefix),
    decreases ns.len(),
{
    if ns.len() == 0 {
        assert(ns.push(n).subrange(1, 1) =~= Seq::<SnapshotNode>::empty());
        assert(nodes_items(ns.push(n).subrange(1, 1), prefix) == Seq::<(Seq<char>, bool, Seq<u8>)>::empty());
        assert(node_items(n, prefix) + Seq::<(Seq<char>, bool, Seq<u8>)>::empty() =~= node_items(n, prefix));
        assert(Seq::<(Seq<char>, bool, Seq<u8>)>::empty() + node_items(n, prefix) =~= node_items(n, prefix));
    } else {
        let tail = ns.subrange(1, ns.len() as int);
        assert(ns.push(n).subrange(1, ns.push(n).len() as int) =~= tail.push(n));
        lemma_nodes_items_push(tail, n, prefix);
        assert(ns.push(n)[0] == ns[0]);
        assert((node_items(ns[0], prefix) + nodes_items(tail, prefix)) + node_items(n, prefix)
            =~= node_items(ns[0], prefix) + (nodes_items(tail, prefix) + node_items(n, prefix)));
    }
}

/// Entry path `name` lies inside the directory entry `dir`.
pub open spec fn inside(name: Seq<char>, dir: Seq<char>) -> bool {
    name.len() > dir.len() && name.take(dir.len() + 1int) == dir.push('/')
}

proof fn lemma_inside_transitive(x: Seq<char>, d: Seq<char>, p: Seq<char>)
    requires
        inside(x, d),
        inside(d, p),
    ensures
        inside(x, p),
{
    assert forall|m: int| 0 <= m < p.len() + 1 implies x.take(p.len() + 1int)[m] == p.push('/')[m] by {
        assert(x.take(d.len() + 1int)[m] == d.push('/')[m]);
        assert(d.take(p.len() + 1int)[m] == p.push('/')[m]);
    }
    assert(x.take(p.len() + 1int) =~= p.push('/'));
}

proof fn lemma_child_inside(p: Seq<char>, name: Seq<char>)
    requires
        p.len() > 0,
    ensures
        inside(child_entry(p, name), p),
{
    assert((p + seq!['/'] + name).take(p.len() + 1int) =~= p.push('/'));
}

/// Every item of `n` inside the non-empty directory entry `prefix` lies inside it.
proof fn lemma_node_items_inside(n: SnapshotNode, prefix: Seq<char>)
    requires
        prefix.len() > 0,
    ensures
        forall|k: int|
            0 <= k < node_items(n, prefix).len() ==> inside(#[trigger] node_items(n, prefix)[k].0, prefix),
    decreases n,
{
    match n {
        SnapshotNode::File(name, d) => {
            lemma_child_inside(prefix, name@);
        },
        SnapshotNode::Directory(name, kids) => {
            let here = child_entry(prefix, name@);
            lemma_child_inside(prefix, name@);
            lemma_nodes_items_inside(kids@, here);
            let rest = nodes_items(kids@, here);
            assert forall|k: int| 0 <= k < node_items(n, prefix).len() implies inside(
                #[trigger] node_items(n, prefix)[k].0,
                prefix,
            ) by {
                if k > 0 {
                    assert(node_items(n, prefix)[k] == rest[k - 1]);
                    lemma_inside_transitive(rest[k - 1].0, here, prefix);
                }
            }
        },
    }
}

/// Every item of `ns` inside the non-empty directory entry `prefix` lies inside it.
proof fn lemma_nodes_items_inside(ns: Seq<SnapshotNode>, prefix: Seq<char>)
    requires
        prefix.len() > 0,
    ensures
        forall|k: int|
            0 <= k < nodes_items(ns, prefix).len() ==> inside(#[trigger] nodes_items(ns, prefix)[k].0, prefix),
    decreases ns,
{
    if ns.len() > 0 {
        let head = node_items(ns[0], prefix);
        let tail = nodes_items(ns.subrange(1, ns.len() as int), prefix);
        lemma_node_items_inside(ns[0], prefix);
        lemma_nodes_items_inside(ns.subrange(1, ns.len() as int), prefix);
        assert forall|k: int| 0 <= k < nodes_items(ns, prefix).len() implies inside(
            #[trigger] nodes_items(ns, prefix)[k].0,
            prefix,
        ) by {
            if k < head.len() {
                assert(nodes_items(ns, prefix)[k] == head[k]);
            } else {
                assert(nodes_items(ns, prefix)[k] == tail[k - head.len()]);
            }
        }
    }
}

/// A directory's entry comes before everything inside it: among the items of a directory,
/// the first is its own entry and every later one lies inside it.
pub proof fn lemma_directory_before_children(n: SnapshotNode, prefix: Seq<char>)
    requires
        n matches SnapshotNode::Directory(name, _) && name@.len() > 0,
    ensures
        node_items(n, prefix)[0] == (child_entry(prefix, n->Directory_0@), true, Seq::<u8>::empty()),
        forall|k: int|
            1 <= k < node_items(n, prefix).len() ==> inside(
                #[trigger] node_items(n, prefix)[k].0,
                child_entry(prefix, n->Directory_0@),
            ),
{
    let here = child_entry(prefix, n->Directory_0@);
    let rest = nodes_items(n->Directory_1@, here);
    lemma_nodes_items_inside(n->Directory_1@, here);
    assert forall|k: int| 1 <= k < node_items(n, prefix).len() implies inside(
        #[trigger] node_items(n, prefix)[k].0,
        here,
    ) by {
        assert(node_items(n, prefix)[k] == rest[k - 1]);
    }
}

/// Appends the items of `node` inside directory entry `prefix`, depth first.
fn flatten_node(node: &SnapshotNode, prefix: &str, out: &mut Vec<ArchiveItem>)
    ensures
        items_view(final(out)@) == items_view(old(out)@) + node_items(*node, prefix@),
    decreases node,
{
    match node {
        SnapshotNode::File(name, data) => {
            let ghost before = out@;
            out.push(ArchiveItem::File(child_entry_name(prefix, name.as_str()), data.clone()));
            assert(items_view(out@) =~= items_view(before) + node_items(*node, prefix@));
        },
        SnapshotNode::Directory(name, kids) => {
            let here = child_entry_name(prefix, name.as_str());
            let ghost before = out@;
            out.push(ArchiveItem::Directory(here.clone()));
            assert(items_view(out@) =~= items_view(before) + seq![(here@, true, Seq::<u8>::empty())]);
            let mut i: usize = 0;
            assert(kids@.take(0) =~= Seq::<SnapshotNode>::empty());
            while i < kids.len()
                invariant
                    i <= kids.len(),
                    *node == SnapshotNode::Directory(*name, *kids),
                    here@ == child_entry(prefix@, name@),
                    items_view(out@) == items_view(before) + seq![(here@, true, Seq::<u8>::empty())]
                        + nodes_items(kids@.take(i as int), here@),
                decreases kids.len() - i,
            {
                proof {
                    vstd::std_specs::vec::axiom_vec_index_decreases(*kids, i as int);
                    assert(decreases_to!(*node => node->Directory_1));
                    assert(node->Directory_1 == *kids);
                    assert(decreases_to!(*node => kids[i as int]));
                }
                let ghost mid = out@;
                flatten_node(&kids[i], here.as_str(), out);
                proof {
                    assert(kids@.take(i + 1) =~= kids@.take(i as int).push(kids@[i as int]));
                    lemma_nodes_items_push(kids@.take(i as int), kids@[i as int], here@);
                }
                i += 1;
                assert(items_view(out@) =~= items_view(before) + seq![(here@, true, Seq::<u8>::empty())]
                    + nodes_items(kids@.take(i as int), here@));
            }
            assert(kids@.take(kids.len() as int) =~= kids@);
            assert(items_view(out@) =~= items_view(before) + node_items(*node, prefix@));
        },
    }
}

/// The archive items of the snapshot whose top-level entries are `roots`, depth first in
/// enumeration order: every directory's entry comes before the entries inside it.
pub fn flatten_snapshot(roots: &Vec<SnapshotNode>) -> (r: Vec<ArchiveItem>)
    ensures
        items_view(r@) == nodes_items(roots@, Seq::empty()),
{
    let mut out: Vec<ArchiveItem> = Vec::new();
    let mut i: usize = 0;
    assert(roots@.take(0) =~= Seq::<SnapshotNode>::empty());
    assert(items_view(out@) =~= Seq::<(Seq<char>, bool, Seq<u8>)>::empty());
    while i < roots.len()
        invariant
            i <= roots.len(),
            items_view(out@) == nodes_items(roots@.take(i as int), Seq::empty()),
        decreases roots.len() - i,
    {
        flatten_node(&roots[i], "", &mut out);
        proof {
            reveal_strlit("");
            assert(roots@.take(i + 1) =~= roots@.take(i as int).push(roots@[i as int]));
            lemma_nodes_items_push(roots@.take(i as int), roots@[i as int], Seq::empty());
        }
        i += 1;
    }
    assert(roots@.take(roots.len() as int) =~= roots@);
    out
}

/// Whether a snapshot may be packed: it must exist, and its archive must not.
pub fn archive_gate(snapshot_exists: bool, archive_exists: bool) -> (r: Result<(), PackOutcome>)
    ensures
        gate_is(r, snapshot_exists, archive_exists),
{
    if !snapshot_exists {
        Err(PackOutcome::SourceMissing)
    } else if archive_exists {
        Err(PackOutcome::AlreadyExists)
    } else {
        Ok(())
    }
}

/// The outcome of packing into `archive_path`, given how writing the archive went.
pub fn conclude_pack(archive_path: &str, written: Result<(), PackFailure>) -> (r: PackOutcome)
    ensures
        written is Ok ==> (r matches PackOutcome::Success(p) && p@ == archive_path@),
        written matches Err(e) ==> r == PackOutcome::Failure(e),
{
    match written {
        Ok(()) => PackOutcome::Success(string_of(&chars_of(archive_path))),
        Err(e) => PackOutcome::Failure(e),
    }
}

} // verus!
