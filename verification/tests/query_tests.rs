use arx_reader::table::EntryTable;
use arx_reader::{ContentAddress, Entry, EntryKind, Error, Meta};

fn meta(index: u32, name: &str, parent: Option<u32>) -> Meta {
    Meta {
        index,
        name: name.as_bytes().to_vec(),
        parent,
        owner: 1000,
        group: 100,
        rights: 0o55,
        mtime: 1234567890,
    }
}

fn addr_x() -> ContentAddress {
    ContentAddress { pack_id: 1, content_id: 7 }
}

/// Root at index 0 with one child `a` (a directory), which holds the
/// file `b.txt` (size 5) and the link `c` -> `b.txt`.
fn scenario_entries() -> Vec<Entry> {
    vec![
        Entry::Dir { meta: meta(0, "", None), begin: 1, count: 1 },
        Entry::Dir { meta: meta(1, "a", Some(0)), begin: 2, count: 2 },
        Entry::File { meta: meta(2, "b.txt", Some(1)), size: 5, content: addr_x() },
        Entry::Link { meta: meta(3, "c", Some(1)), target: b"b.txt".to_vec() },
    ]
}

fn scenario_table() -> EntryTable {
    EntryTable::from_entries(scenario_entries(), 0).unwrap()
}

#[test]
fn resolve_root_path_returns_parentless_dir() {
    let t = scenario_table();
    assert_eq!(t.len(), 4);
    assert_eq!(t.root_idx(), 0);
    for path in [&b""[..], &b"/"[..], &b"///"[..]] {
        let e = t.resolve(&path.to_vec()).unwrap();
        assert_eq!(e.kind(), EntryKind::Dir);
        assert_eq!(e.parent(), None);
        assert_eq!(e.idx(), t.root_idx());
    }
}

#[test]
fn resolve_file_through_directory() {
    let t = scenario_table();
    let e = t.resolve(&b"a/b.txt".to_vec()).unwrap();
    assert_eq!(e.kind(), EntryKind::File);
    assert_eq!(e.idx(), 2);
    assert_eq!(e.content_size().unwrap(), 5);
    assert_eq!(e.content_address().unwrap(), addr_x());
}

#[test]
fn resolve_ignores_redundant_separators() {
    let t = scenario_table();
    let e = t.resolve(&b"//a///b.txt".to_vec()).unwrap();
    assert_eq!(e.idx(), 2);
    let d = t.resolve(&b"a/".to_vec()).unwrap();
    assert_eq!(d.idx(), 1);
    assert_eq!(d.kind(), EntryKind::Dir);
}

#[test]
fn resolve_link_and_target() {
    let t = scenario_table();
    let e = t.resolve(&b"a/c".to_vec()).unwrap();
    assert_eq!(e.kind(), EntryKind::Link);
    assert_eq!(e.link_target().unwrap(), &b"b.txt".to_vec());
}

#[test]
fn resolve_missing_final_component_is_not_found() {
    let t = scenario_table();
    match t.resolve(&b"a/missing".to_vec()) {
        Err(e) => assert_eq!(e, Error::NotFound),
        Ok(_) => panic!("resolved a missing path"),
    }
    match t.resolve(&b"nope".to_vec()) {
        Err(e) => assert_eq!(e, Error::NotFound),
        Ok(_) => panic!("resolved a missing path"),
    }
}

#[test]
fn resolve_through_non_directory_is_not_a_directory() {
    let t = scenario_table();
    match t.resolve(&b"a/b.txt/x".to_vec()) {
        Err(e) => assert_eq!(e, Error::NotADirectory),
        Ok(_) => panic!("resolved through a file"),
    }
    // even when the next component would not exist anywhere, the
    // failure is NotADirectory, never NotFound
    match t.resolve(&b"a/c/deeper/still".to_vec()) {
        Err(e) => assert_eq!(e, Error::NotADirectory),
        Ok(_) => panic!("resolved through a link"),
    }
}

#[test]
fn children_record_directory_as_parent() {
    let t = scenario_table();
    let d = t.resolve(&b"a".to_vec()).unwrap();
    let begin = d.first_child().unwrap();
    let count = d.nb_children().unwrap();
    assert_eq!((begin, count), (2, 2));
    for i in begin..begin + count {
        let child = t.get_entry_by_index(i).unwrap();
        assert_eq!(child.parent(), Some(d.idx()));
    }
}

#[test]
fn get_entry_by_index_out_of_range() {
    let t = scenario_table();
    match t.get_entry_by_index(4) {
        Err(e) => assert_eq!(e, Error::Index),
        Ok(_) => panic!("index past the end answered"),
    }
    let e = t.get_entry_by_index(3).unwrap();
    assert_eq!(e.kind(), EntryKind::Link);
}

#[test]
fn kind_specific_operations_fail_on_other_kinds() {
    let t = scenario_table();
    let dir = t.resolve(&b"a".to_vec()).unwrap();
    let file = t.resolve(&b"a/b.txt".to_vec()).unwrap();
    let link = t.resolve(&b"a/c".to_vec()).unwrap();

    assert!(file.content_size().is_ok());
    assert!(file.content_address().is_ok());
    assert_eq!(dir.content_size().unwrap_err(), Error::NotAFile);
    assert_eq!(dir.content_address().unwrap_err(), Error::NotAFile);
    assert_eq!(link.content_size().unwrap_err(), Error::NotAFile);
    assert_eq!(link.content_address().unwrap_err(), Error::NotAFile);

    assert!(link.link_target().is_ok());
    match file.link_target() {
        Err(e) => assert_eq!(e, Error::NotALink),
        Ok(_) => panic!("a file has no link target"),
    }
    match dir.link_target() {
        Err(e) => assert_eq!(e, Error::NotALink),
        Ok(_) => panic!("a dir has no link target"),
    }

    assert!(dir.first_child().is_ok());
    assert!(dir.nb_children().is_ok());
    assert_eq!(file.first_child().unwrap_err(), Error::NotADir);
    assert_eq!(file.nb_children().unwrap_err(), Error::NotADir);
    assert_eq!(link.first_child().unwrap_err(), Error::NotADir);
    assert_eq!(link.nb_children().unwrap_err(), Error::NotADir);
}

#[test]
fn common_accessors_never_fail() {
    let t = scenario_table();
    let e = t.resolve(&b"a/b.txt".to_vec()).unwrap();
    assert_eq!(e.idx(), 2);
    assert_eq!(e.path(), &b"b.txt".to_vec());
    assert_eq!(e.parent(), Some(1));
    assert_eq!(e.owner(), 1000);
    assert_eq!(e.group(), 100);
    assert_eq!(e.rights(), 0o55);
    assert_eq!(e.mtime(), 1234567890);
}

#[test]
fn repr_tags_kind_and_path() {
    let t = scenario_table();
    let file = t.resolve(&b"a/b.txt".to_vec()).unwrap();
    assert_eq!(file.repr(), b"File(b.txt)".to_vec());
    let dir = t.resolve(&b"a".to_vec()).unwrap();
    assert_eq!(dir.repr(), b"Dir(a)".to_vec());
    let link = t.resolve(&b"a/c".to_vec()).unwrap();
    assert_eq!(link.repr(), b"Link(c)".to_vec());
}

#[test]
fn from_entries_rejects_malformed_tables() {
    // empty table: no root entry
    match EntryTable::from_entries(Vec::new(), 0) {
        Err(e) => assert_eq!(e, Error::Open),
        Ok(_) => panic!("empty table accepted"),
    }
    // root that is not a directory
    let mut v = scenario_entries();
    v[0] = Entry::File { meta: meta(0, "", None), size: 1, content: addr_x() };
    match EntryTable::from_entries(v, 0) {
        Err(e) => assert_eq!(e, Error::Open),
        Ok(_) => panic!("file accepted as root"),
    }
    // root with a parent
    let mut v = scenario_entries();
    v[0] = Entry::Dir { meta: meta(0, "", Some(1)), begin: 1, count: 1 };
    match EntryTable::from_entries(v, 0) {
        Err(e) => assert_eq!(e, Error::Open),
        Ok(_) => panic!("parented root accepted"),
    }
    // an entry that does not record its own position
    let mut v = scenario_entries();
    v[3] = Entry::Link { meta: meta(9, "c", Some(1)), target: b"b.txt".to_vec() };
    match EntryTable::from_entries(v, 0) {
        Err(e) => assert_eq!(e, Error::Open),
        Ok(_) => panic!("misnumbered entry accepted"),
    }
    // a directory whose children range leaves the table
    let mut v = scenario_entries();
    v[1] = Entry::Dir { meta: meta(1, "a", Some(0)), begin: 2, count: 9 };
    match EntryTable::from_entries(v, 0) {
        Err(e) => assert_eq!(e, Error::Open),
        Ok(_) => panic!("out-of-range children accepted"),
    }
    // a child that does not record the surrounding directory as parent
    let mut v = scenario_entries();
    v[3] = Entry::Link { meta: meta(3, "c", Some(0)), target: b"b.txt".to_vec() };
    match EntryTable::from_entries(v, 0) {
        Err(e) => assert_eq!(e, Error::Open),
        Ok(_) => panic!("mislinked child accepted"),
    }
    // an entry outside every directory with a dangling parent index
    let mut v = scenario_entries();
    v.push(Entry::File { meta: meta(4, "stray", Some(9)), size: 0, content: addr_x() });
    match EntryTable::from_entries(v, 0) {
        Err(e) => assert_eq!(e, Error::Open),
        Ok(_) => panic!("stray entry accepted"),
    }
    // and the untouched scenario is accepted
    assert!(EntryTable::from_entries(scenario_entries(), 0).is_ok());
}

#[test]
fn duplicate_is_a_snapshot() {
    let t = scenario_table();
    let e = t.resolve(&b"a/c".to_vec()).unwrap();
    let mut copy = e.duplicate();
    if let Entry::Link { target, .. } = &mut copy {
        target.clear();
    }
    // the table still answers with the unchanged record
    let again = t.resolve(&b"a/c".to_vec()).unwrap();
    assert_eq!(again.link_target().unwrap(), &b"b.txt".to_vec());
}

#[test]
fn split_path_components() {
    assert_eq!(arx_reader::paths::split_path(&b"a/b.txt".to_vec()), vec![
        b"a".to_vec(),
        b"b.txt".to_vec()
    ]);
    assert_eq!(arx_reader::paths::split_path(&b"//x//y/".to_vec()), vec![
        b"x".to_vec(),
        b"y".to_vec()
    ]);
    assert_eq!(arx_reader::paths::split_path(&b"".to_vec()), Vec::<Vec<u8>>::new());
    assert_eq!(arx_reader::paths::split_path(&b"/".to_vec()), Vec::<Vec<u8>>::new());
}

#[test]
fn component_matches_terminal_component() {
    assert!(arx_reader::paths::component_matches(&b"dir/name".to_vec(), &b"name".to_vec()));
    assert!(arx_reader::paths::component_matches(&b"name".to_vec(), &b"name".to_vec()));
    assert!(!arx_reader::paths::component_matches(&b"dir/name".to_vec(), &b"dir".to_vec()));
    assert!(!arx_reader::paths::component_matches(&b"name".to_vec(), &b"nam".to_vec()));
}
