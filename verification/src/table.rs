use crate::entry::{Entry, EntryV};
use crate::error::Error;
use crate::paths::{components_of, split_path, component_matches, terminal};
use vstd::prelude::*;

verus! {

/// The models of a sequence of entries.
pub open spec fn views_of(s: Seq<Entry>) -> Seq<EntryV> {
    s.map_values(|e: Entry| e@)
}

/// Whether table position `j` lies inside directory `d`'s children range.
pub open spec fn in_children(d: EntryV, j: int) -> bool
    recommends d is Dir,
{
    d.begin() <= j < d.begin() + d.count()
}

/// Well-formedness of an entry table with root position `root`:
/// the table is indexable by `u32`, the root is a parentless directory,
/// every entry records its own position, every directory's children
/// range lies inside the table and its members record the directory as
/// their parent, and every non-root entry is a member of its parent
/// directory's children range.
pub open spec fn table_wf(t: Seq<EntryV>, root: int) -> bool {
    &&& t.len() <= u32::MAX
    &&& 0 <= root < t.len()
    &&& t[root] is Dir
    &&& t[root].meta().parent is None
    &&& forall|i: int| 0 <= i < t.len() ==> (#[trigger] t[i]).meta().index == i
    &&& forall|i: int|
        0 <= i < t.len() && t[i] is Dir ==> (#[trigger] t[i]).begin() + t[i].count() <= t.len()
    &&& forall|i: int, j: int|
        #![trigger t[i], t[j]]
        0 <= i < t.len() && t[i] is Dir && in_children(t[i], j) ==> t[j].meta().parent
            == Some(i as u32)
    &&& forall|j: int| 0 <= j < t.len() && j != root ==> child_linked(t, #[trigger] t[j], j)
}

/// Whether entry `e` at position `j` is recorded as a child of an
/// existing directory whose children range contains `j`.
pub open spec fn child_linked(t: Seq<EntryV>, e: EntryV, j: int) -> bool {
    &&& e.meta().parent matches Some(p)
    &&& p < t.len()
    &&& t[p as int] is Dir
    &&& in_children(t[p as int], j)
}

/// The ordered collection of all entries in a container, addressable by
/// a dense zero-based index.  It is populated once, at container open,
/// and immutable thereafter.
pub struct EntryTable {
    entries: Vec<Entry>,
    root: u32,
}

impl View for EntryTable {
    type V = Seq<EntryV>;

    closed spec fn view(&self) -> Seq<EntryV> {
        views_of(self.entries@)
    }
}

impl EntryTable {
    /// The table position of the root directory entry.
    pub closed spec fn root_index(self) -> int {
        self.root as int
    }

    /// The table invariant: see [`table_wf`].
    pub open spec fn wf(self) -> bool {
        table_wf(self@, self.root_index())
    }

    /// Every table that exists was validated at construction.
    #[verifier::type_invariant]
    spec fn type_inv(self) -> bool {
        self.wf()
    }

    /// Number of entries, the root included.
    pub fn len(&self) -> (n: usize)
        ensures n == self@.len(),
    {
        self.entries.len()
    }

    /// The table position of the root directory entry.
    pub fn root_idx(&self) -> (r: u32)
        ensures r == self.root_index(),
    {
        self.root
    }

    /// Build a table from owned entries after validating the table
    /// invariant; a collection that breaks it is rejected as malformed.
    pub fn from_entries(entries: Vec<Entry>, root: u32) -> (r: Result<EntryTable, Error>)
        ensures
            r matches Ok(t) ==> t@ == views_of(entries@) && t.root_index() == root && t.wf(),
            r is Ok <==> table_wf(views_of(entries@), root as int),
            r is Err ==> r == Err::<EntryTable, Error>(Error::Open),
    {
        let ghost t = views_of(entries@);
        if entries.len() > u32::MAX as usize {
            return Err(Error::Open);
        }
        if (root as usize) >= entries.len() {
            return Err(Error::Open);
        }
        let root_ok = match &entries[root as usize] {
            Entry::Dir { meta, .. } => meta.parent.is_none(),
            _ => false,
        };
        proof {
            assert(t[root as int] == entries@[root as int]@);
            assert(root_ok == (t[root as int] is Dir && t[root as int].meta().parent is None));
        }
        if !root_ok {
            return Err(Error::Open);
        }
        if !check_local(&entries) {
            return Err(Error::Open);
        }
        if !check_parents(&entries, root) {
            return Err(Error::Open);
        }
        if !check_children(&entries) {
            return Err(Error::Open);
        }
        Ok(EntryTable { entries, root })
    }

    /// Direct table lookup: the owned snapshot of the entry at index
    /// `i`, or `Index` exactly when `i` is out of range.
    pub fn get_entry_by_index(&self, i: u32) -> (r: Result<Entry, Error>)
        ensures
            i < self@.len() ==> (r matches Ok(e) && e@ == self@[i as int]),
            i >= self@.len() ==> r == Err::<Entry, Error>(Error::Index),
    {
        if (i as usize) < self.entries.len() {
            let e = self.entries[i as usize].duplicate();
            proof {
                assert(self@[i as int] == self.entries@[i as int]@);
            }
            Ok(e)
        } else {
            Err(Error::Index)
        }
    }

    /// Every entry inside a directory's children range lies in the
    /// table and records that directory as its parent.
    pub proof fn lemma_children_have_dir_as_parent(self, i: int, j: int)
        requires
            self.wf(),
            0 <= i < self@.len(),
            self@[i] is Dir,
            in_children(self@[i], j),
        ensures
            0 <= j < self@.len(),
            self@[j].meta().parent == Some(i as u32),
    {
        assert(self@[i].begin() + self@[i].count() <= self@.len());
    }
}

/// Outcome of resolving a component sequence against a table: the
/// position of the matching entry, or one of the two failure modes.
pub enum Resolution {
    Found(int),
    NotFound,
    NotADirectory,
}

/// Position of the first entry in `[j, end)` whose terminal path
/// component equals `comp`, if any.
pub open spec fn find_from(t: Seq<EntryV>, j: int, end: int, comp: Seq<u8>) -> Option<int>
    decreases end - j,
{
    if j >= end {
        None
    } else if terminal(t[j].meta().name) == comp {
        Some(j)
    } else {
        find_from(t, j + 1, end, comp)
    }
}

/// Resolve a non-empty component sequence against the children range
/// `[begin, begin + count)`: search the range for the first component;
/// descend while more components remain and the match is a directory.
pub open spec fn resolve_in(t: Seq<EntryV>, begin: int, count: int, comps: Seq<Seq<u8>>) -> Resolution
    recommends comps.len() >= 1,
    decreases comps.len(),
{
    if comps.len() == 0 {
        Resolution::NotFound
    } else {
        match find_from(t, begin, begin + count, comps[0]) {
            None => Resolution::NotFound,
            Some(j) => {
                if comps.len() == 1 {
                    Resolution::Found(j)
                } else if t[j] is Dir {
                    resolve_in(t, t[j].begin() as int, t[j].count() as int, comps.skip(1))
                } else {
                    Resolution::NotADirectory
                }
            }
        }
    }
}

/// Resolve a component sequence starting from the root directory at
/// position `root`.  An empty sequence resolves to the root itself.
pub open spec fn resolve_spec(t: Seq<EntryV>, root: int, comps: Seq<Seq<u8>>) -> Resolution {
    if comps.len() == 0 {
        Resolution::Found(root)
    } else {
        resolve_in(t, t[root].begin() as int, t[root].count() as int, comps)
    }
}

/// Whether the walk of `comps` from `[begin, begin + count)` finds some
/// non-final component but lands on a non-directory entry, or does so
/// deeper down: the path traverses through a non-directory.
pub open spec fn hits_non_dir(t: Seq<EntryV>, begin: int, count: int, comps: Seq<Seq<u8>>) -> bool
    decreases comps.len(),
{
    comps.len() > 1 && match find_from(t, begin, begin + count, comps[0]) {
        None => false,
        Some(j) => !(t[j] is Dir) || hits_non_dir(
            t,
            t[j].begin() as int,
            t[j].count() as int,
            comps.skip(1),
        ),
    }
}

/// The children range in which the final component of `comps` is
/// looked up, if every earlier component resolves to a directory.
pub open spec fn final_range(t: Seq<EntryV>, begin: int, count: int, comps: Seq<Seq<u8>>) -> Option<
    (int, int),
>
    recommends comps.len() >= 1,
    decreases comps.len(),
{
    if comps.len() <= 1 {
        Some((begin, count))
    } else {
        match find_from(t, begin, begin + count, comps[0]) {
            None => None,
            Some(j) => {
                if t[j] is Dir {
                    final_range(t, t[j].begin() as int, t[j].count() as int, comps.skip(1))
                } else {
                    None
                }
            }
        }
    }
}

/// A path that traverses through a non-directory component fails with
/// `NotADirectory` — never with `NotFound`.
pub proof fn lemma_non_dir_traversal(t: Seq<EntryV>, begin: int, count: int, comps: Seq<Seq<u8>>)
    requires
        hits_non_dir(t, begin, count, comps),
    ensures
        resolve_in(t, begin, count, comps) == Resolution::NotADirectory,
    decreases comps.len(),
{
    let j = find_from(t, begin, begin + count, comps[0])->Some_0;
    if t[j] is Dir {
        lemma_non_dir_traversal(t, t[j].begin() as int, t[j].count() as int, comps.skip(1));
    }
}

/// A path whose walk reaches the parent range of its final component
/// and whose final component does not occur there fails with
/// `NotFound`.
pub proof fn lemma_missing_final(t: Seq<EntryV>, begin: int, count: int, comps: Seq<Seq<u8>>)
    requires
        comps.len() >= 1,
        final_range(t, begin, count, comps) matches Some(r) && find_from(
            t,
            r.0,
            r.0 + r.1,
            comps.last(),
        ) is None,
    ensures
        resolve_in(t, begin, count, comps) == Resolution::NotFound,
    decreases comps.len(),
{
    if comps.len() > 1 {
        match find_from(t, begin, begin + count, comps[0]) {
            None => {
                let r = final_range(t, begin, count, comps)->Some_0;
                assert(false);
            }
            Some(j) => {
                assert(t[j] is Dir);
                assert(comps.skip(1).last() == comps.last());
                lemma_missing_final(t, t[j].begin() as int, t[j].count() as int, comps.skip(1));
            }
        }
    } else {
        assert(comps[0] == comps.last());
    }
}

impl EntryTable {
    /// Position of the first entry in `[begin, end)` whose terminal
    /// path component equals `comp`.
    fn find_in_range(&self, begin: u32, end: u32, comp: &Vec<u8>) -> (r: Option<u32>)
        requires
            begin <= end,
            end <= self@.len(),
        ensures
            r matches Some(j) ==> begin <= j < end && find_from(
                self@,
                begin as int,
                end as int,
                comp@,
            ) == Some(j as int),
            r is None ==> find_from(self@, begin as int, end as int, comp@) is None,
    {
        let mut k = begin;
        while k < end
            invariant
                begin <= k <= end,
                end <= self@.len(),
                self@.len() == self.entries@.len(),
                find_from(self@, begin as int, end as int, comp@) == find_from(
                    self@,
                    k as int,
                    end as int,
                    comp@,
                ),
            decreases end - k,
        {
            proof {
                assert(self@[k as int] == self.entries@[k as int]@);
            }
            if component_matches(self.entries[k as usize].path(), comp) {
                return Some(k);
            }
            k = k + 1;
        }
        None
    }

    /// Resolve a slash-separated path against the table, starting at
    /// the root.  The empty path (no components after splitting)
    /// resolves to the root directory entry itself; a path through a
    /// non-directory fails with `NotADirectory`; a path whose final
    /// component is absent from its parent's children fails with
    /// `NotFound`.
    #[verifier::rlimit(100)]
    pub fn resolve(&self, path: &Vec<u8>) -> (r: Result<Entry, Error>)
        ensures
            match resolve_spec(self@, self.root_index(), components_of(path@)) {
                Resolution::Found(j) => r matches Ok(e) && 0 <= j < self@.len() && e@ == self@[j],
                Resolution::NotFound => r == Err::<Entry, Error>(Error::NotFound),
                Resolution::NotADirectory => r == Err::<Entry, Error>(Error::NotADirectory),
            },
    {
        proof {
            use_type_invariant(self);
        }
        let ghost comps_spec = components_of(path@);
        let comps = split_path(path);
        proof {
            assert(comps@.map_values(|c: Vec<u8>| c@) == comps_spec);
        }
        if comps.len() == 0 {
            proof {
                assert(self@[self.root_index()] == self.entries@[self.root_index()]@);
            }
            return Ok(self.entries[self.root as usize].duplicate());
        }
        let root_entry = &self.entries[self.root as usize];
        proof {
            assert(self@[self.root_index()] == self.entries@[self.root_index()]@);
        }
        let (mut begin, mut count) = match root_entry {
            Entry::Dir { begin, count, .. } => (*begin, *count),
            _ => {
                proof {
                    assert(false);
                }
                return Err(Error::NotFound);
            }
        };
        proof {
            let t = self@;
            let rt = self.root_index();
            assert(begin == t[rt].begin() && count == t[rt].count());
            assert(t[rt].begin() + t[rt].count() <= t.len());
            assert(comps_spec.skip(0) =~= comps_spec);
        }
        let mut c: usize = 0;
        while c < comps.len()
            invariant
                self.wf(),
                comps_spec == components_of(path@),
                comps@.map_values(|cv: Vec<u8>| cv@) == comps_spec,
                c < comps@.len(),
                begin + count <= self@.len(),
                resolve_in(self@, begin as int, count as int, comps_spec.skip(c as int))
                    == resolve_spec(self@, self.root_index(), comps_spec),
            decreases comps@.len() - c,
        {
            proof {
                assert(comps_spec.skip(c as int)[0] == comps_spec[c as int]);
                assert(comps_spec[c as int] == comps@[c as int]@);
            }
            let found = self.find_in_range(begin, begin + count, &comps[c]);
            match found {
                None => {
                    proof {
                        assert(resolve_in(self@, begin as int, count as int, comps_spec.skip(
                            c as int,
                        )) == Resolution::NotFound);
                    }
                    return Err(Error::NotFound);
                }
                Some(j) => {
                    proof {
                        assert(self@[j as int] == self.entries@[j as int]@);
                    }
                    if c == comps.len() - 1 {
                        proof {
                            assert(comps_spec.skip(c as int).len() == 1);
                            assert(resolve_in(self@, begin as int, count as int, comps_spec.skip(
                                c as int,
                            )) == Resolution::Found(j as int));
                        }
                        return Ok(self.entries[j as usize].duplicate());
                    }
                    proof {
                        assert(comps_spec.skip(c as int).len() > 1);
                    }
                    match &self.entries[j as usize] {
                        Entry::Dir { begin: b2, count: c2, .. } => {
                            proof {
                                let t = self@;
                                assert(t[j as int] is Dir);
                                assert(*b2 == t[j as int].begin() && *c2 == t[j as int].count());
                                assert(t[j as int].begin() + t[j as int].count() <= t.len());
                                assert(comps_spec.skip(c as int).skip(1) =~= comps_spec.skip(
                                    c + 1 as int,
                                ));
                            }
                            begin = *b2;
                            count = *c2;
                        }
                        _ => {
                            proof {
                                assert(!(self@[j as int] is Dir));
                                assert(resolve_in(self@, begin as int, count as int, comps_spec
                                    .skip(c as int)) == Resolution::NotADirectory);
                            }
                            return Err(Error::NotADirectory);
                        }
                    }
                }
            }
            c = c + 1;
        }
        proof {
            assert(false);
        }
        Err(Error::NotFound)
    }

    /// A path that traverses through a non-directory component fails
    /// with `NotADirectory`, never with `NotFound`.
    pub proof fn lemma_resolve_through_non_dir(self, comps: Seq<Seq<u8>>)
        requires
            self.wf(),
            hits_non_dir(
                self@,
                self@[self.root_index()].begin() as int,
                self@[self.root_index()].count() as int,
                comps,
            ),
        ensures
            resolve_spec(self@, self.root_index(), comps) == Resolution::NotADirectory,
    {
        lemma_non_dir_traversal(
            self@,
            self@[self.root_index()].begin() as int,
            self@[self.root_index()].count() as int,
            comps,
        );
    }

    /// A path whose walk reaches the parent range of its final
    /// component and whose final component does not occur there fails
    /// with `NotFound`.
    pub proof fn lemma_resolve_missing_final(self, comps: Seq<Seq<u8>>)
        requires
            self.wf(),
            comps.len() >= 1,
            final_range(
                self@,
                self@[self.root_index()].begin() as int,
                self@[self.root_index()].count() as int,
                comps,
            ) matches Some(r) && find_from(self@, r.0, r.0 + r.1, comps.last()) is None,
        ensures
            resolve_spec(self@, self.root_index(), comps) == Resolution::NotFound,
    {
        lemma_missing_final(
            self@,
            self@[self.root_index()].begin() as int,
            self@[self.root_index()].count() as int,
            comps,
        );
    }

    /// Resolving the root path — empty, or a lone separator — returns
    /// the root directory entry, which has no parent.
    pub proof fn lemma_resolve_root(self, p: Seq<u8>)
        requires
            self.wf(),
            p == Seq::<u8>::empty() || p == seq![('/' as u8)],
        ensures
            resolve_spec(self@, self.root_index(), components_of(p)) == Resolution::Found(
                self.root_index(),
            ),
            self@[self.root_index()] is Dir,
            self@[self.root_index()].meta().parent is None,
    {
        if p.len() > 0 {
            assert(p.skip(1) =~= Seq::<u8>::empty());
        }
        assert(components_of(Seq::<u8>::empty()) =~= Seq::<Seq<u8>>::empty());
        assert(components_of(p) =~= Seq::<Seq<u8>>::empty());
    }
}

/// Check that every entry records its own position and that every
/// directory's children range lies inside the table.
fn check_local(entries: &Vec<Entry>) -> (b: bool)
    requires
        entries@.len() <= u32::MAX,
    ensures
        b == {
            let t = views_of(entries@);
            &&& forall|i: int| 0 <= i < t.len() ==> (#[trigger] t[i]).meta().index == i
            &&& forall|i: int|
                0 <= i < t.len() && t[i] is Dir ==> (#[trigger] t[i]).begin() + t[i].count()
                    <= t.len()
        },
{
    let ghost t = views_of(entries@);
    let n = entries.len();
    let mut i: usize = 0;
    while i < n
        invariant
            n == entries@.len(),
            n <= u32::MAX,
            t == views_of(entries@),
            i <= n,
            forall|k: int| 0 <= k < i ==> (#[trigger] t[k]).meta().index == k,
            forall|k: int|
                0 <= k < i && t[k] is Dir ==> (#[trigger] t[k]).begin() + t[k].count() <= t.len(),
        decreases n - i,
    {
        let e = &entries[i];
        proof {
            assert(t[i as int] == entries@[i as int]@);
        }
        if e.idx() as usize != i {
            return false;
        }
        match e {
            Entry::Dir { begin, count, .. } => {
                if (*begin as u64) + (*count as u64) > n as u64 {
                    return false;
                }
            }
            _ => {}
        }
        i = i + 1;
    }
    true
}

/// Check that the root records no parent and that every other entry is
/// recorded as a child of an existing directory whose children range
/// contains it.
fn check_parents(entries: &Vec<Entry>, root: u32) -> (b: bool)
    requires
        entries@.len() <= u32::MAX,
        (root as int) < entries@.len(),
    ensures
        b == {
            let t = views_of(entries@);
            forall|j: int|
                0 <= j < t.len() && j != root ==> child_linked(t, #[trigger] t[j], j)
        },
{
    let ghost t = views_of(entries@);
    let n = entries.len();
    let mut j: usize = 0;
    while j < n
        invariant
            n == entries@.len(),
            n <= u32::MAX,
            t == views_of(entries@),
            j <= n,
            forall|k: int| 0 <= k < j && k != root ==> child_linked(t, #[trigger] t[k], k),
        decreases n - j,
    {
        proof {
            assert(t[j as int] == entries@[j as int]@);
        }
        if j != root as usize {
            let linked = match entries[j].parent() {
                Some(p) => {
                    if (p as usize) < n {
                        proof {
                            assert(t[p as int] == entries@[p as int]@);
                        }
                        match &entries[p as usize] {
                            Entry::Dir { begin, count, .. } => {
                                (*begin as u64) <= (j as u64) && (j as u64) < (*begin as u64) + (
                                *count as u64)
                            }
                            _ => false,
                        }
                    } else {
                        false
                    }
                }
                None => false,
            };
            if !linked {
                return false;
            }
            proof {
                assert(child_linked(t, t[j as int], j as int));
            }
        }
        j = j + 1;
    }
    true
}

/// Check that the members of every directory's children range record
/// that directory as their parent.
fn check_children(entries: &Vec<Entry>) -> (b: bool)
    requires
        entries@.len() <= u32::MAX,
        forall|i: int|
            0 <= i < views_of(entries@).len() && views_of(entries@)[i] is Dir ==> (
            #[trigger] views_of(entries@)[i]).begin() + views_of(entries@)[i].count()
                <= views_of(entries@).len(),
    ensures
        b == {
            let t = views_of(entries@);
            forall|i: int, j: int|
                #![trigger t[i], t[j]]
                0 <= i < t.len() && t[i] is Dir && in_children(t[i], j) ==> t[j].meta().parent
                    == Some(i as u32)
        },
{
    let ghost t = views_of(entries@);
    let n = entries.len();
    let mut i: usize = 0;
    while i < n
        invariant
            n == entries@.len(),
            n <= u32::MAX,
            t == views_of(entries@),
            i <= n,
            forall|i0: int|
                0 <= i0 < t.len() && t[i0] is Dir ==> (#[trigger] t[i0]).begin() + t[i0].count()
                    <= t.len(),
            forall|i0: int, j0: int|
                #![trigger t[i0], t[j0]]
                0 <= i0 < i && t[i0] is Dir && in_children(t[i0], j0) ==> t[j0].meta().parent
                    == Some(i0 as u32),
        decreases n - i,
    {
        proof {
            assert(t[i as int] == entries@[i as int]@);
        }
        match &entries[i] {
            Entry::Dir { begin, count, .. } => {
                let end: u64 = (*begin as u64) + (*count as u64);
                let mut j: u64 = *begin as u64;
                while j < end
                    invariant
                        n == entries@.len(),
                        n <= u32::MAX,
                        t == views_of(entries@),
                        i < n,
                        t[i as int] is Dir,
                        *begin == t[i as int].begin(),
                        *count == t[i as int].count(),
                        end == t[i as int].begin() + t[i as int].count(),
                        end <= n,
                        *begin as u64 <= j <= end,
                        forall|j0: int|
                            *begin <= j0 < j ==> (#[trigger] t[j0]).meta().parent == Some(
                                i as u32,
                            ),
                    decreases end - j,
                {
                    proof {
                        assert(t[j as int] == entries@[j as int]@);
                    }
                    let ok = match entries[j as usize].parent() {
                        Some(p) => p as usize == i,
                        None => false,
                    };
                    if !ok {
                        return false;
                    }
                    j = j + 1;
                }
                proof {
                    assert forall|j0: int| in_children(t[i as int], j0) implies (
                    #[trigger] t[j0]).meta().parent == Some(i as u32) by {}
                }
            }
            _ => {}
        }
        i = i + 1;
    }
    true
}

} // verus!
