use crate::error::Error;
use vstd::prelude::*;

verus! {

/// Opaque, copyable identifier naming a payload blob inside the
/// container's blob-pool subsystem.  It is only a key: the pack it
/// belongs to and the content slot inside that pack.  A value is only
/// meaningful for the container instance that produced it.
#[derive(Clone, Copy, Debug, PartialEq, Eq, Structural)]
pub struct ContentAddress {
    pub pack_id: u16,
    pub content_id: u32,
}

/// The metadata record common to every entry kind.
pub struct Meta {
    /// The entry's own position in the entry table.
    pub index: u32,
    /// The entry's stored path bytes.  Paths are raw byte sequences;
    /// no text encoding is imposed at this layer.
    pub name: Vec<u8>,
    /// Index of the parent directory; `None` only for the root.
    pub parent: Option<u32>,
    /// Numeric owner identifier.
    pub owner: u32,
    /// Numeric group identifier.
    pub group: u32,
    /// Permission bits.
    pub rights: u8,
    /// Modification time, seconds since the epoch.
    pub mtime: u64,
}

/// Mathematical model of [`Meta`]: the stored path is a byte sequence.
pub struct MetaV {
    pub index: u32,
    pub name: Seq<u8>,
    pub parent: Option<u32>,
    pub owner: u32,
    pub group: u32,
    pub rights: u8,
    pub mtime: u64,
}

impl View for Meta {
    type V = MetaV;

    open spec fn view(&self) -> MetaV {
        MetaV {
            index: self.index,
            name: self.name@,
            parent: self.parent,
            owner: self.owner,
            group: self.group,
            rights: self.rights,
            mtime: self.mtime,
        }
    }
}

/// Which of the three entry kinds an entry is.
#[derive(Clone, Copy, Debug, PartialEq, Eq, Structural)]
pub enum EntryKind {
    File,
    Link,
    Dir,
}

/// One record of the entry table: a tagged union over file, symbolic
/// link and directory, each carrying the common metadata plus its
/// kind-specific payload.
pub enum Entry {
    File { meta: Meta, size: u64, content: ContentAddress },
    Link { meta: Meta, target: Vec<u8> },
    Dir { meta: Meta, begin: u32, count: u32 },
}

/// Mathematical model of [`Entry`].
pub enum EntryV {
    File { meta: MetaV, size: u64, content: ContentAddress },
    Link { meta: MetaV, target: Seq<u8> },
    Dir { meta: MetaV, begin: u32, count: u32 },
}

impl View for Entry {
    type V = EntryV;

    open spec fn view(&self) -> EntryV {
        match self {
            Entry::File { meta, size, content } => EntryV::File {
                meta: meta@,
                size: *size,
                content: *content,
            },
            Entry::Link { meta, target } => EntryV::Link { meta: meta@, target: target@ },
            Entry::Dir { meta, begin, count } => EntryV::Dir {
                meta: meta@,
                begin: *begin,
                count: *count,
            },
        }
    }
}

impl EntryV {
    pub open spec fn meta(self) -> MetaV {
        match self {
            EntryV::File { meta, .. } => meta,
            EntryV::Link { meta, .. } => meta,
            EntryV::Dir { meta, .. } => meta,
        }
    }

    pub open spec fn kind(self) -> EntryKind {
        match self {
            EntryV::File { .. } => EntryKind::File,
            EntryV::Link { .. } => EntryKind::Link,
            EntryV::Dir { .. } => EntryKind::Dir,
        }
    }

    pub open spec fn size(self) -> u64
        recommends self is File,
    {
        self->File_size
    }

    pub open spec fn content(self) -> ContentAddress
        recommends self is File,
    {
        self->File_content
    }

    pub open spec fn target(self) -> Seq<u8>
        recommends self is Link,
    {
        self->Link_target
    }

    pub open spec fn begin(self) -> u32
        recommends self is Dir,
    {
        self->Dir_begin
    }

    pub open spec fn count(self) -> u32
        recommends self is Dir,
    {
        self->Dir_count
    }
}

/// The diagnostic representation of an entry: the kind tag, an opening
/// parenthesis, the stored path bytes and a closing parenthesis.
pub open spec fn repr_bytes(e: EntryV) -> Seq<u8> {
    kind_tag(e.kind()) + seq![('(' as u8)] + e.meta().name + seq![(')' as u8)]
}

/// The tag bytes naming an entry kind.
pub open spec fn kind_tag(k: EntryKind) -> Seq<u8> {
    match k {
        EntryKind::File => seq![('F' as u8), ('i' as u8), ('l' as u8), ('e' as u8)],
        EntryKind::Link => seq![('L' as u8), ('i' as u8), ('n' as u8), ('k' as u8)],
        EntryKind::Dir => seq![('D' as u8), ('i' as u8), ('r' as u8)],
    }
}

impl Entry {
    /// Borrow the common metadata record, whatever the kind.
    pub fn meta_ref(&self) -> (m: &Meta)
        ensures m@ == self@.meta(),
    {
        match self {
            Entry::File { meta, .. } => meta,
            Entry::Link { meta, .. } => meta,
            Entry::Dir { meta, .. } => meta,
        }
    }

    /// Which of the three kinds this entry is; always succeeds.
    pub fn kind(&self) -> (k: EntryKind)
        ensures k == self@.kind(),
    {
        match self {
            Entry::File { .. } => EntryKind::File,
            Entry::Link { .. } => EntryKind::Link,
            Entry::Dir { .. } => EntryKind::Dir,
        }
    }

    /// The entry's own position in the entry table.
    pub fn idx(&self) -> (r: u32)
        ensures r == self@.meta().index,
    {
        self.meta_ref().index
    }

    /// The entry's stored path bytes.
    pub fn path(&self) -> (r: &Vec<u8>)
        ensures r@ == self@.meta().name,
    {
        &self.meta_ref().name
    }

    /// Index of the parent directory; `None` only for the root.
    pub fn parent(&self) -> (r: Option<u32>)
        ensures r == self@.meta().parent,
    {
        self.meta_ref().parent
    }

    /// Numeric owner identifier.
    pub fn owner(&self) -> (r: u32)
        ensures r == self@.meta().owner,
    {
        self.meta_ref().owner
    }

    /// Numeric group identifier.
    pub fn group(&self) -> (r: u32)
        ensures r == self@.meta().group,
    {
        self.meta_ref().group
    }

    /// Permission bits.
    pub fn rights(&self) -> (r: u8)
        ensures r == self@.meta().rights,
    {
        self.meta_ref().rights
    }

    /// Modification time, seconds since the epoch.
    pub fn mtime(&self) -> (r: u64)
        ensures r == self@.meta().mtime,
    {
        self.meta_ref().mtime
    }

    /// Declared size of a file's content; fails with `NotAFile` exactly
    /// on the other kinds.
    pub fn content_size(&self) -> (r: Result<u64, Error>)
        ensures
            self@ is File ==> r == Ok::<u64, Error>(self@.size()),
            !(self@ is File) ==> r == Err::<u64, Error>(Error::NotAFile),
    {
        match self {
            Entry::File { size, .. } => Ok(*size),
            _ => Err(Error::NotAFile),
        }
    }

    /// Content address of a file's payload; fails with `NotAFile`
    /// exactly on the other kinds.
    pub fn content_address(&self) -> (r: Result<ContentAddress, Error>)
        ensures
            self@ is File ==> r == Ok::<ContentAddress, Error>(self@.content()),
            !(self@ is File) ==> r == Err::<ContentAddress, Error>(Error::NotAFile),
    {
        match self {
            Entry::File { content, .. } => Ok(*content),
            _ => Err(Error::NotAFile),
        }
    }

    /// Target path of a symbolic link; fails with `NotALink` exactly on
    /// the other kinds.
    pub fn link_target(&self) -> (r: Result<&Vec<u8>, Error>)
        ensures
            self@ is Link ==> (r matches Ok(t) && t@ == self@.target()),
            !(self@ is Link) ==> r == Err::<&Vec<u8>, Error>(Error::NotALink),
    {
        match self {
            Entry::Link { target, .. } => Ok(target),
            _ => Err(Error::NotALink),
        }
    }

    /// First index of a directory's children range; fails with
    /// `NotADir` exactly on the other kinds.
    pub fn first_child(&self) -> (r: Result<u32, Error>)
        ensures
            self@ is Dir ==> r == Ok::<u32, Error>(self@.begin()),
            !(self@ is Dir) ==> r == Err::<u32, Error>(Error::NotADir),
    {
        match self {
            Entry::Dir { begin, .. } => Ok(*begin),
            _ => Err(Error::NotADir),
        }
    }

    /// Number of children of a directory; fails with `NotADir` exactly
    /// on the other kinds.
    pub fn nb_children(&self) -> (r: Result<u32, Error>)
        ensures
            self@ is Dir ==> r == Ok::<u32, Error>(self@.count()),
            !(self@ is Dir) ==> r == Err::<u32, Error>(Error::NotADir),
    {
        match self {
            Entry::Dir { count, .. } => Ok(*count),
            _ => Err(Error::NotADir),
        }
    }

    /// Diagnostic byte string tagging the kind and the stored path,
    /// e.g. `File(<path>)`; not part of the data contract.
    pub fn repr(&self) -> (r: Vec<u8>)
        ensures r@ == repr_bytes(self@),
    {
        let mut out: Vec<u8> = Vec::new();
        match self {
            Entry::File { .. } => {
                out.push(('F' as u8));
                out.push(('i' as u8));
                out.push(('l' as u8));
                out.push(('e' as u8));
            }
            Entry::Link { .. } => {
                out.push(('L' as u8));
                out.push(('i' as u8));
                out.push(('n' as u8));
                out.push(('k' as u8));
            }
            Entry::Dir { .. } => {
                out.push(('D' as u8));
                out.push(('i' as u8));
                out.push(('r' as u8));
            }
        }
        out.push(('(' as u8));
        proof {
            assert(out@ =~= kind_tag(self@.kind()) + seq![('(' as u8)]);
        }
        let name = self.path();
        let mut i: usize = 0;
        while i < name.len()
            invariant
                i <= name.len(),
                name@ == self@.meta().name,
                out@ == kind_tag(self@.kind()) + seq![('(' as u8)] + name@.take(i as int),
            decreases name.len() - i,
        {
            out.push(name[i]);
            proof {
                assert(name@.take(i + 1 as int) =~= name@.take(i as int) + seq![name@[i as int]]);
                assert(out@ =~= kind_tag(self@.kind()) + seq![('(' as u8)] + name@.take(i + 1 as int));
            }
            i = i + 1;
        }
        out.push((')' as u8));
        proof {
            assert(name@.take(name@.len() as int) =~= name@);
            assert(out@ =~= repr_bytes(self@));
        }
        out
    }

    /// An owned copy of this entry.  Entries handed out of the table
    /// are snapshots: mutating a copy never affects the table.
    pub fn duplicate(&self) -> (r: Entry)
        ensures r@ == self@,
    {
        match self {
            Entry::File { meta, size, content } => Entry::File {
                meta: meta.duplicate(),
                size: *size,
                content: *content,
            },
            Entry::Link { meta, target } => Entry::Link {
                meta: meta.duplicate(),
                target: clone_bytes(target),
            },
            Entry::Dir { meta, begin, count } => Entry::Dir {
                meta: meta.duplicate(),
                begin: *begin,
                count: *count,
            },
        }
    }
}

impl Meta {
    /// An owned copy of this metadata record.
    pub fn duplicate(&self) -> (r: Meta)
        ensures r@ == self@,
    {
        Meta {
            index: self.index,
            name: clone_bytes(&self.name),
            parent: self.parent,
            owner: self.owner,
            group: self.group,
            rights: self.rights,
            mtime: self.mtime,
        }
    }
}

/// An owned copy of a byte vector.
pub fn clone_bytes(v: &Vec<u8>) -> (r: Vec<u8>)
    ensures r@ == v@,
{
    let mut out: Vec<u8> = Vec::new();
    let mut i: usize = 0;
    while i < v.len()
        invariant
            i <= v.len(),
            out@ == v@.take(i as int),
        decreases v.len() - i,
    {
        out.push(v[i]);
        proof {
            assert(v@.take(i + 1 as int) =~= v@.take(i as int) + seq![v@[i as int]]);
        }
        i = i + 1;
    }
    proof {
        assert(v@.take(v@.len() as int) =~= v@);
    }
    out
}

} // verus!

