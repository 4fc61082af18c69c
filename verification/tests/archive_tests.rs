use arx_reader::{Container, EntryKind, Error};
use jubako::creator::{CompHint, Compression, ConcatMode, ContentAdder};
use libarx::create::{EntryKind as CreateKind, EntryTrait, SimpleCreator};

struct TestEntry {
    path: libarx::PathBuf,
    kind: CreateKind,
}

impl EntryTrait for TestEntry {
    fn kind(&self) -> Result<Option<CreateKind>, libarx::CreatorError> {
        Ok(Some(self.kind.clone()))
    }

    fn path(&self) -> &libarx::Path {
        &self.path
    }

    fn uid(&self) -> u64 {
        1000
    }

    fn gid(&self) -> u64 {
        100
    }

    fn mode(&self) -> u64 {
        0o644
    }

    fn mtime(&self) -> u64 {
        42
    }
}

fn write_archive(path: &str, content: &[u8]) {
    let mut creator = SimpleCreator::new(
        path,
        ConcatMode::OneFile,
        std::sync::Arc::new(()),
        std::rc::Rc::new(()),
        Compression::None,
    )
    .unwrap();
    let addr = creator
        .adder()
        .add_content(Box::new(std::io::Cursor::new(content.to_vec())), CompHint::Detect)
        .unwrap();
    let file = TestEntry {
        path: libarx::PathBuf::from("a/b.txt"),
        kind: CreateKind::File(jubako::Size::new(content.len() as u64), addr),
    };
    creator.add_entry(&file).unwrap();
    creator.finalize().unwrap();
}

#[test]
fn archive_round_trip() {
    let path = "/tmp/arx_reader_round_trip.arx";
    write_archive(path, b"hello");

    let c = Container::open(path).unwrap();

    // the root path resolves to a parentless directory
    let root = c.get_entry(&b"/".to_vec()).unwrap();
    assert_eq!(root.kind(), EntryKind::Dir);
    assert_eq!(root.parent(), None);

    // the file is found through its directory, with its metadata
    let e = c.get_entry(&b"a/b.txt".to_vec()).unwrap();
    assert_eq!(e.kind(), EntryKind::File);
    assert_eq!(e.path(), &b"b.txt".to_vec());
    assert_eq!(e.content_size().unwrap(), 5);

    // the content read produces exactly the declared number of bytes
    let bytes = c.read_file(&e).unwrap();
    assert_eq!(bytes, b"hello".to_vec());
    let by_address = c.get_content(&e.content_address().unwrap()).unwrap();
    assert_eq!(by_address, b"hello".to_vec());

    // the directory records the file as its child
    let dir = c.get_entry(&b"a".to_vec()).unwrap();
    assert_eq!(dir.kind(), EntryKind::Dir);
    let begin = dir.first_child().unwrap();
    let count = dir.nb_children().unwrap();
    assert_eq!(count, 1);
    let child = c.get_entry_by_index(begin).unwrap();
    assert_eq!(child.parent(), Some(dir.idx()));

    // failure modes against the real table
    match c.get_entry(&b"a/missing".to_vec()) {
        Err(err) => assert_eq!(err, Error::NotFound),
        Ok(_) => panic!("resolved a missing path"),
    }
    match c.get_entry(&b"a/b.txt/x".to_vec()) {
        Err(err) => assert_eq!(err, Error::NotADirectory),
        Ok(_) => panic!("resolved through a file"),
    }
    match c.read_file(&dir) {
        Err(err) => assert_eq!(err, Error::NotAFile),
        Ok(_) => panic!("read a directory's content"),
    }
}

#[test]
fn archive_nested_directories() {
    let path = "/tmp/arx_reader_nested.arx";
    let mut creator = SimpleCreator::new(
        path,
        ConcatMode::OneFile,
        std::sync::Arc::new(()),
        std::rc::Rc::new(()),
        Compression::None,
    )
    .unwrap();
    let deep = creator
        .adder()
        .add_content(Box::new(std::io::Cursor::new(b"deep down".to_vec())), CompHint::Detect)
        .unwrap();
    let top = creator
        .adder()
        .add_content(Box::new(std::io::Cursor::new(b"top".to_vec())), CompHint::Detect)
        .unwrap();
    creator
        .add_entry(&TestEntry {
            path: libarx::PathBuf::from("outer/inner/deep.txt"),
            kind: CreateKind::File(jubako::Size::new(9), deep),
        })
        .unwrap();
    creator
        .add_entry(&TestEntry {
            path: libarx::PathBuf::from("top.txt"),
            kind: CreateKind::File(jubako::Size::new(3), top),
        })
        .unwrap();
    creator
        .add_entry(&TestEntry {
            path: libarx::PathBuf::from("outer/shortcut"),
            kind: CreateKind::Link(bstr::BString::from("inner/deep.txt")),
        })
        .unwrap();
    creator.finalize().unwrap();

    let c = Container::open(path).unwrap();

    // two top-level entries, each a child of the parentless root
    let root = c.get_entry(&b"".to_vec()).unwrap();
    assert_eq!(root.parent(), None);
    let begin = root.first_child().unwrap();
    let count = root.nb_children().unwrap();
    assert_eq!(count, 2);
    for i in begin..begin + count {
        let child = c.get_entry_by_index(i).unwrap();
        assert_eq!(child.parent(), Some(root.idx()));
    }

    // descent through two directory levels
    let f = c.get_entry(&b"outer/inner/deep.txt".to_vec()).unwrap();
    assert_eq!(f.content_size().unwrap(), 9);
    assert_eq!(c.read_file(&f).unwrap(), b"deep down".to_vec());
    let f2 = c.get_entry(&b"/top.txt".to_vec()).unwrap();
    assert_eq!(c.read_file(&f2).unwrap(), b"top".to_vec());

    // an intermediate directory resolves on its own
    let inner = c.get_entry(&b"outer/inner".to_vec()).unwrap();
    assert_eq!(inner.kind(), EntryKind::Dir);
    assert_eq!(inner.nb_children().unwrap(), 1);

    // the symbolic link carries its stored target
    let link = c.get_entry(&b"outer/shortcut".to_vec()).unwrap();
    assert_eq!(link.kind(), EntryKind::Link);
    assert_eq!(link.link_target().unwrap(), &b"inner/deep.txt".to_vec());
    match c.read_file(&link) {
        Err(err) => assert_eq!(err, Error::NotAFile),
        Ok(_) => panic!("read a link's content"),
    }

    // traversal through a file deep down still reports NotADirectory
    match c.get_entry(&b"outer/inner/deep.txt/more".to_vec()) {
        Err(err) => assert_eq!(err, Error::NotADirectory),
        Ok(_) => panic!("resolved through a file"),
    }
}

#[test]
fn open_non_container_fails() {
    match Container::open("Cargo.toml") {
        Err(e) => assert_eq!(e, Error::Open),
        Ok(_) => panic!("opened a file that is no container"),
    }
    match Container::open("/tmp/arx_reader_no_such_file.arx") {
        Err(e) => assert_eq!(e, Error::Open),
        Ok(_) => panic!("opened a missing file"),
    }
}

#[test]
fn open_parentless_location_fails() {
    // locations that cannot name a container file are refused, not
    // handed to the container layer (which would panic on them)
    for path in ["", "/", "//"] {
        match Container::open(path) {
            Err(e) => assert_eq!(e, Error::Open),
            Ok(_) => panic!("opened a parentless location"),
        }
    }
}

#[test]
fn unknown_content_address_fails_with_read() {
    let path = "/tmp/arx_reader_bad_address.arx";
    write_archive(path, b"hello");
    let c = Container::open(path).unwrap();
    let bogus = arx_reader::ContentAddress { pack_id: 250, content_id: 1234 };
    match c.get_content(&bogus) {
        Err(e) => assert_eq!(e, Error::Read),
        Ok(_) => panic!("bytes for a bogus address"),
    }
}
