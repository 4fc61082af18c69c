use crate::entry::{ContentAddress, Entry, EntryV, Meta};
use crate::error::Error;
use crate::paths::components_of;
use crate::table::{in_children, resolve_spec, table_wf, EntryTable, Resolution};
use jubako::reader::Range;
use libarx::CommonEntry;
use std::io::Read;
use vstd::prelude::*;

verus! {

/// `libarx::Arx`: an open archive of the container-format layer.  It
/// owns the backing file, the directory structures and the blob pools;
/// this layer treats it as an opaque primitive.
#[verifier::external_type_specification]
#[verifier::external_body]
pub struct ExArx(libarx::Arx);

/// `libarx::ArxError`: the container-format layer's error type; every
/// occurrence is mapped to an error kind of this crate.
#[verifier::external_type_specification]
#[verifier::external_body]
pub struct ExArxError(libarx::ArxError);

/// `libarx::FileEntry`: a raw file record of the container.
#[verifier::external_type_specification]
#[verifier::external_body]
pub struct ExFileEntry(libarx::FileEntry);

/// `libarx::Link`: a raw symbolic-link record of the container.
#[verifier::external_type_specification]
#[verifier::external_body]
pub struct ExLinkEntry(libarx::Link);

/// `libarx::Dir`: a raw directory record of the container.
#[verifier::external_type_specification]
#[verifier::external_body]
pub struct ExDirEntry(libarx::Dir);

/// One raw record pulled from the container's entry table, with its
/// kind-specific payload still in the container-format layer's types;
/// a directory's children range is already converted to plain offsets.
enum RawEntry {
    File(libarx::FileEntry),
    Link(libarx::Link),
    Dir(u32, u32, libarx::Dir),
}

/// Relies on `libarx::Arx::new`: opens the archive at a filesystem
/// location and reads its directory structures; `None` whenever the
/// backing storage cannot be located or its framing is invalid.
/// A location without a parent directory (the empty path, or a bare
/// filesystem root such as `/`) would make the container layer panic
/// while locating sibling packs, so the guard refuses it up front.
#[verifier::external_body]
fn arx_open(path: &str) -> Option<libarx::Arx> {
    if std::path::Path::new(path).parent().is_none() {
        return None;
    }
    libarx::Arx::new(path).ok()
}

/// Relies on `libarx::Arx::root_index` and the `jbk::reader::Range`
/// methods `offset` and `count`: the archive's root children range.
#[verifier::external_body]
fn arx_root_range(arx: &libarx::Arx) -> (u32, u32) {
    (arx.root_index.offset().into_u32(), arx.root_index.count().into_u32())
}

/// Relies on `libarx::Arx::get_entry_at_idx`: the typed record at
/// entry-table index `idx`, or `None` past the end of the entry store.
#[verifier::external_body]
fn arx_entry_at(arx: &libarx::Arx, idx: u32) -> Result<Option<RawEntry>, libarx::ArxError> {
    match arx.get_entry_at_idx::<libarx::FullBuilder>(idx.into()) {
        Err(e) => Err(e),
        Ok(None) => Ok(None),
        Ok(Some(libarx::Entry::File(f))) => Ok(Some(RawEntry::File(f))),
        Ok(Some(libarx::Entry::Link(l))) => Ok(Some(RawEntry::Link(l))),
        Ok(Some(libarx::Entry::Dir(r, d))) => {
            Ok(Some(RawEntry::Dir(r.offset().into_u32(), r.count().into_u32(), d)))
        }
    }
}

/// Relies on the `libarx::CommonEntry` getters (`idx`, `path`,
/// `parent`, `owner`, `group`, `rights`, `mtime`) of a file record.
#[verifier::external_body]
fn file_meta(f: &libarx::FileEntry) -> Meta {
    Meta {
        index: f.idx().into_u32(),
        name: f.path().to_vec(),
        parent: f.parent().map(|p| p.into_u32()),
        owner: f.owner(),
        group: f.group(),
        rights: f.rights(),
        mtime: f.mtime(),
    }
}

/// Relies on the `libarx::CommonEntry` getters (`idx`, `path`,
/// `parent`, `owner`, `group`, `rights`, `mtime`) of a link record.
#[verifier::external_body]
fn link_meta(l: &libarx::Link) -> Meta {
    Meta {
        index: l.idx().into_u32(),
        name: l.path().to_vec(),
        parent: l.parent().map(|p| p.into_u32()),
        owner: l.owner(),
        group: l.group(),
        rights: l.rights(),
        mtime: l.mtime(),
    }
}

/// Relies on the `libarx::CommonEntry` getters (`idx`, `path`,
/// `parent`, `owner`, `group`, `rights`, `mtime`) of a directory
/// record.
#[verifier::external_body]
fn dir_meta(d: &libarx::Dir) -> Meta {
    Meta {
        index: d.idx().into_u32(),
        name: d.path().to_vec(),
        parent: d.parent().map(|p| p.into_u32()),
        owner: d.owner(),
        group: d.group(),
        rights: d.rights(),
        mtime: d.mtime(),
    }
}

/// Relies on `libarx::FileEntry::size` and `libarx::FileEntry::content`:
/// the declared content size and the parts of the content address.
#[verifier::external_body]
fn file_payload(f: &libarx::FileEntry) -> (u64, u16, u32) {
    let a = f.content();
    (f.size().into_u64(), a.pack_id.into_u16(), a.content_id.into_u32())
}

/// Relies on `libarx::Link::target`: the stored target path bytes.
#[verifier::external_body]
fn link_target_bytes(l: &libarx::Link) -> Vec<u8> {
    l.target().to_vec()
}

/// Relies on `jbk::reader::Container::get_bytes` and
/// `jbk::reader::ByteRegion::stream`: the payload blob at a content
/// address, read exactly to the blob's declared size.  `None` on any
/// failure: an unknown address, a missing pack, or a short read.
#[verifier::external_body]
fn blob_bytes(arx: &libarx::Arx, pack_id: u16, content_id: u32) -> Option<Vec<u8>> {
    let addr = jubako::ContentAddress::new(pack_id.into(), content_id.into());
    let region = match arx.container.get_bytes(addr) {
        Ok(Some(m)) => match m.transpose()? {
            jubako::reader::MayMissPack::FOUND(r) => r,
            jubako::reader::MayMissPack::MISSING(_) => return None,
        },
        _ => return None,
    };
    let mut buf = vec![0u8; region.size().into_u64() as usize];
    region.stream().read_exact(&mut buf).ok()?;
    Some(buf)
}

/// Build one table entry from a raw record.  Entries that lie in the
/// root children range are re-parented to the synthetic root entry at
/// table position `root`.
fn build_entry(raw: &RawEntry, in_root: bool, root: u32) -> Entry {
    match raw {
        RawEntry::File(f) => {
            let mut meta = file_meta(f);
            if in_root {
                meta.parent = Some(root);
            }
            let (size, pack_id, content_id) = file_payload(f);
            Entry::File { meta, size, content: ContentAddress { pack_id, content_id } }
        }
        RawEntry::Link(l) => {
            let mut meta = link_meta(l);
            if in_root {
                meta.parent = Some(root);
            }
            Entry::Link { meta, target: link_target_bytes(l) }
        }
        RawEntry::Dir(begin, count, d) => {
            let mut meta = dir_meta(d);
            if in_root {
                meta.parent = Some(root);
            }
            Entry::Dir { meta, begin: *begin, count: *count }
        }
    }
}

/// An open container: the archive handle of the container-format layer
/// plus the entry table materialized from it at open time.  The table
/// is immutable for the life of the handle; every operation is a pure
/// read.
pub struct Container {
    backing: libarx::Arx,
    table: EntryTable,
}

impl Container {
    /// The model of the materialized entry table.
    pub closed spec fn table_view(self) -> Seq<EntryV> {
        self.table@
    }

    /// The table position of the synthetic root directory entry.
    pub closed spec fn root_index(self) -> int {
        self.table.root_index()
    }

    /// The entry table of every open container is well-formed.
    pub open spec fn wf(self) -> bool {
        table_wf(self.table_view(), self.root_index())
    }

    /// Open the container at a filesystem location.  The entry table
    /// is pulled from the archive's entry store and validated; a
    /// missing or malformed container fails with `Open` and no table
    /// is constructed.  A location that cannot name a container file —
    /// the empty path, or a bare filesystem root — fails with `Open`
    /// as well.
    pub fn open(path: &str) -> (r: Result<Container, Error>)
        ensures
            r matches Ok(a) ==> a.wf(),
            r matches Err(e) ==> e == Error::Open,
    {
        let backing = match arx_open(path) {
            Some(a) => a,
            None => {
                return Err(Error::Open);
            }
        };
        let (root_begin, root_count) = arx_root_range(&backing);
        let mut raws: Vec<RawEntry> = Vec::new();
        let mut i: u32 = 0;
        while i < u32::MAX
            invariant
                raws@.len() == i,
            decreases u32::MAX - i,
        {
            match arx_entry_at(&backing, i) {
                Err(_) => {
                    return Err(Error::Open);
                }
                Ok(None) => {
                    break;
                }
                Ok(Some(raw)) => {
                    raws.push(raw);
                }
            }
            i = i + 1;
        }
        let n = raws.len();
        if n >= u32::MAX as usize {
            return Err(Error::Open);
        }
        let root = n as u32;
        let root_end: u64 = root_begin as u64 + root_count as u64;
        let mut entries: Vec<Entry> = Vec::new();
        let mut k: usize = 0;
        while k < n
            invariant
                n == raws@.len(),
                k <= n,
            decreases n - k,
        {
            let in_root = (root_begin as u64) <= (k as u64) && (k as u64) < root_end;
            entries.push(build_entry(&raws[k], in_root, root));
            k = k + 1;
        }
        entries.push(
            Entry::Dir {
                meta: Meta {
                    index: root,
                    name: Vec::new(),
                    parent: None,
                    owner: 0,
                    group: 0,
                    rights: 0,
                    mtime: 0,
                },
                begin: root_begin,
                count: root_count,
            },
        );
        match EntryTable::from_entries(entries, root) {
            Ok(table) => Ok(Container { backing, table }),
            Err(_) => Err(Error::Open),
        }
    }

    /// Resolve a slash-separated path against the entry table
    /// materialized at open time.
    pub fn get_entry(&self, path: &Vec<u8>) -> (r: Result<Entry, Error>)
        ensures
            match resolve_spec(self.table_view(), self.root_index(), components_of(path@)) {
                Resolution::Found(j) => (r matches Ok(e) && 0 <= j < self.table_view().len() && e@
                    == self.table_view()[j]),
                Resolution::NotFound => r == Err::<Entry, Error>(Error::NotFound),
                Resolution::NotADirectory => r == Err::<Entry, Error>(Error::NotADirectory),
            },
    {
        self.table.resolve(path)
    }

    /// Direct entry-table lookup by index: an owned snapshot of the
    /// entry, or `Index` exactly when the index is out of range.
    pub fn get_entry_by_index(&self, i: u32) -> (r: Result<Entry, Error>)
        ensures
            i < self.table_view().len() ==> (r matches Ok(e) && e@ == self.table_view()[i as int]),
            i >= self.table_view().len() ==> r == Err::<Entry, Error>(Error::Index),
    {
        self.table.get_entry_by_index(i)
    }

    /// Fetch the payload bytes at a content address.  The read is an
    /// exact-fill operation of the container-format layer: it either
    /// produces the blob in full or fails with `Read`.
    pub fn get_content(&self, content: &ContentAddress) -> (r: Result<Vec<u8>, Error>)
        ensures
            r matches Err(e) ==> e == Error::Read,
    {
        match blob_bytes(&self.backing, content.pack_id, content.content_id) {
            Some(v) => Ok(v),
            None => Err(Error::Read),
        }
    }

    /// Resolving the root path — empty, or a lone separator — returns
    /// the root directory entry, which has no parent.
    pub proof fn lemma_resolve_root(self, p: Seq<u8>)
        requires
            self.wf(),
            p == Seq::<u8>::empty() || p == seq![('/' as u8)],
        ensures
            resolve_spec(self.table_view(), self.root_index(), components_of(p))
                == Resolution::Found(self.root_index()),
            self.table_view()[self.root_index()] is Dir,
            self.table_view()[self.root_index()].meta().parent is None,
    {
        self.table.lemma_resolve_root(p);
    }

    /// Every entry inside a directory's children range lies in the
    /// table and records that directory as its parent.
    pub proof fn lemma_children_have_dir_as_parent(self, i: int, j: int)
        requires
            self.wf(),
            0 <= i < self.table_view().len(),
            self.table_view()[i] is Dir,
            in_children(self.table_view()[i], j),
        ensures
            0 <= j < self.table_view().len(),
            self.table_view()[j].meta().parent == Some(i as u32),
    {
        self.table.lemma_children_have_dir_as_parent(i, j);
    }

    /// Read a file entry's whole content: on success the bytes are
    /// exactly the entry's declared content size — a short or failed
    /// read is `Read`, never a partial result.  A non-file entry fails
    /// with `NotAFile`, and only a non-file entry does.
    pub fn read_file(&self, entry: &Entry) -> (r: Result<Vec<u8>, Error>)
        ensures
            !(entry@ is File) ==> r == Err::<Vec<u8>, Error>(Error::NotAFile),
            entry@ is File ==> (r == Err::<Vec<u8>, Error>(Error::Read) || (r matches Ok(v)
                && v@.len() == entry@.size())),
    {
        let size = match entry.content_size() {
            Ok(s) => s,
            Err(e) => {
                return Err(e);
            }
        };
        let address = match entry.content_address() {
            Ok(a) => a,
            Err(e) => {
                return Err(e);
            }
        };
        let bytes = match self.get_content(&address) {
            Ok(b) => b,
            Err(e) => {
                return Err(e);
            }
        };
        if bytes.len() as u64 == size {
            Ok(bytes)
        } else {
            Err(Error::Read)
        }
    }
}

} // verus!

