use xcp::drivers::{failure, load_driver, Driver};
use xcp::errors::XcpError;
use xcp::operations::{CopyOperation, OpKind, StatusUpdate};
use xcp::options::{DriverKind, Opts};
use xcp::planner::{Child, Entry, Source};
use xcp::request::{Destination, PathKind};
use xcp::schedule::{arrange, Schedule};

fn text(s: &str) -> String {
    s.to_string()
}

fn path(names: &[&str]) -> Vec<String> {
    names.iter().map(|n| n.to_string()).collect()
}

fn op(kind: OpKind, source: &str, relative: &[&str]) -> CopyOperation {
    CopyOperation { kind, source_path: text(source), relative_path: path(relative) }
}

fn dir(children: Vec<Child>) -> Entry {
    Entry::Directory { children }
}

fn child(name: &str, entry: Entry) -> Child {
    Child { name: text(name), entry }
}

fn source(path: &str, name: &str, root: Option<Entry>) -> Source {
    Source { path: text(path), name: text(name), root, is_destination: false }
}

fn dest(path: &str, kind: PathKind) -> Destination {
    Destination { path: text(path), kind }
}

fn options(recursive: bool, no_clobber: bool) -> Opts {
    let mut opts = Opts::new(vec![]);
    opts.recursive = recursive;
    opts.no_clobber = no_clobber;
    opts
}

fn driver(recursive: bool, no_clobber: bool) -> Driver {
    load_driver(&options(recursive, no_clobber), 4).unwrap()
}

#[test]
fn the_parallel_driver_is_loaded_by_default() {
    let d = load_driver(&Opts::new(vec![]), 4).unwrap();
    assert_eq!(d.kind(), DriverKind::Parallel);
    assert_eq!(d.workers(), 4);
    assert_eq!(d.block_size(), 1048576);
    assert!(!d.preserve_metadata());
}

#[test]
fn the_sequential_driver_runs_with_one_worker() {
    let mut opts = Opts::new(vec![]);
    opts.driver = DriverKind::Sequential;
    opts.workers = 16;
    opts.preserve_metadata = true;
    let d = load_driver(&opts, 4).unwrap();
    assert_eq!(d.kind(), DriverKind::Sequential);
    assert_eq!(d.workers(), 1);
    assert!(d.preserve_metadata());
}

#[test]
fn a_pool_of_one_falls_back_to_the_sequential_driver() {
    let mut opts = Opts::new(vec![]);
    opts.workers = 1;
    let d = load_driver(&opts, 4).unwrap();
    assert_eq!(d.kind(), DriverKind::Sequential);
    assert_eq!(d.workers(), 1);
    let d = load_driver(&Opts::new(vec![]), 1).unwrap();
    assert_eq!(d.kind(), DriverKind::Sequential);
    let d = load_driver(&Opts::new(vec![]), 0).unwrap();
    assert_eq!(d.kind(), DriverKind::Sequential);
    assert_eq!(d.workers(), 1);
}

#[test]
fn the_configured_pool_size_wins_over_the_machine() {
    let mut opts = Opts::new(vec![]);
    opts.workers = 2;
    opts.block_size = 512;
    let d = load_driver(&opts, 64).unwrap();
    assert_eq!(d.kind(), DriverKind::Parallel);
    assert_eq!(d.workers(), 2);
    assert_eq!(d.block_size(), 512);
}

#[test]
fn a_block_size_of_zero_is_refused() {
    let mut opts = Opts::new(vec![]);
    opts.block_size = 0;
    match load_driver(&opts, 4) {
        Err(e) => assert_eq!(
            e,
            XcpError::InvalidArguments(text("Block size must be greater than zero."))
        ),
        Ok(_) => panic!("a driver was loaded"),
    }
}

#[test]
fn file_copy() {
    let d = driver(false, false);
    let sources = vec![source("/t/source.txt", "source.txt", Some(Entry::File { size: 20 }))];
    let schedule = d.copy_all(&sources, &dest("/t/dest.txt", PathKind::Missing)).unwrap();
    assert_eq!(
        schedule,
        Schedule {
            directories: vec![],
            transfers: vec![op(OpKind::File { size: 20 }, "/t/source.txt", &[])],
            workers: 4,
        }
    );
}

#[test]
fn a_file_goes_into_a_directory_under_its_own_name() {
    let d = driver(false, false);
    let sources = vec![source("/t/a.txt", "a.txt", Some(Entry::File { size: 21 }))];
    let schedule = d.copy_all(&sources, &dest("/t/out", PathKind::Directory)).unwrap();
    assert_eq!(schedule.directories, vec![]);
    assert_eq!(schedule.transfers, vec![op(OpKind::File { size: 21 }, "/t/a.txt", &["a.txt"])]);
}

#[test]
fn copy_empty_dir() {
    let d = driver(true, false);
    let sources = vec![source("/t/mydir", "mydir", Some(dir(vec![])))];
    let schedule = d.copy_all(&sources, &dest("/t/dest", PathKind::Directory)).unwrap();
    assert_eq!(schedule.directories, vec![op(OpKind::Directory, "/t/mydir", &["mydir"])]);
    assert_eq!(schedule.transfers, vec![]);
}

#[test]
fn copy_all_dirs() {
    let d = driver(true, false);
    let tree = dir(vec![child("one", dir(vec![child("two", dir(vec![child("three", dir(vec![]))]))]))]);
    let sources = vec![source("/t/mydir", "mydir", Some(tree))];
    let schedule = d.copy_all(&sources, &dest("/t/dest", PathKind::Directory)).unwrap();
    assert_eq!(
        schedule.directories,
        vec![
            op(OpKind::Directory, "/t/mydir", &["mydir"]),
            op(OpKind::Directory, "/t/mydir/one", &["mydir", "one"]),
            op(OpKind::Directory, "/t/mydir/one/two", &["mydir", "one", "two"]),
            op(OpKind::Directory, "/t/mydir/one/two/three", &["mydir", "one", "two", "three"]),
        ]
    );
    assert_eq!(schedule.transfers, vec![]);
}

#[test]
fn a_directory_becomes_a_destination_that_does_not_exist_yet() {
    let d = driver(true, false);
    let tree = dir(vec![child("f", Entry::File { size: 1 })]);
    let sources = vec![source("a", "a", Some(tree))];
    let schedule = d.copy_all(&sources, &dest("b", PathKind::Missing)).unwrap();
    assert_eq!(schedule.directories, vec![op(OpKind::Directory, "a", &[])]);
    assert_eq!(schedule.transfers, vec![op(OpKind::File { size: 1 }, "a/f", &["f"])]);
}

#[test]
fn directories_are_scheduled_before_files_and_links() {
    let d = driver(true, false);
    let tree = dir(vec![
        child("a.txt", Entry::File { size: 21 }),
        child("sub", dir(vec![
            child("link", Entry::Symlink { target: text("../a.txt") }),
            child("deep", dir(vec![child("b", Entry::File { size: 2 })])),
        ])),
        child("z", Entry::File { size: 7 }),
    ]);
    let sources = vec![
        source("/s/top", "top", Some(tree)),
        source("/s/other", "other", Some(dir(vec![]))),
        source("/s/lone", "lone", Some(Entry::File { size: 5 })),
    ];
    let schedule = d.copy_all(&sources, &dest("/d", PathKind::Directory)).unwrap();
    assert_eq!(
        schedule.directories,
        vec![
            op(OpKind::Directory, "/s/top", &["top"]),
            op(OpKind::Directory, "/s/top/sub", &["top", "sub"]),
            op(OpKind::Directory, "/s/top/sub/deep", &["top", "sub", "deep"]),
            op(OpKind::Directory, "/s/other", &["other"]),
        ]
    );
    assert_eq!(
        schedule.transfers,
        vec![
            op(OpKind::File { size: 21 }, "/s/top/a.txt", &["top", "a.txt"]),
            op(OpKind::Symlink { target: text("../a.txt") }, "/s/top/sub/link", &["top", "sub", "link"]),
            op(OpKind::File { size: 2 }, "/s/top/sub/deep/b", &["top", "sub", "deep", "b"]),
            op(OpKind::File { size: 7 }, "/s/top/z", &["top", "z"]),
            op(OpKind::File { size: 5 }, "/s/lone", &["lone"]),
        ]
    );
    assert_eq!(schedule.workers, 4);
}

#[test]
fn arrange_keeps_the_order_within_each_group() {
    let plan = vec![
        op(OpKind::File { size: 1 }, "f1", &["f1"]),
        op(OpKind::Directory, "d1", &["d1"]),
        op(OpKind::Symlink { target: text("t") }, "l", &["d1", "l"]),
        op(OpKind::Directory, "d2", &["d2"]),
    ];
    let schedule = arrange(&plan, 3);
    assert_eq!(schedule.directories, vec![plan[1].duplicate(), plan[3].duplicate()]);
    assert_eq!(schedule.transfers, vec![plan[0].duplicate(), plan[2].duplicate()]);
    assert_eq!(schedule.workers, 3);
    let empty = arrange(&vec![], 1);
    assert_eq!(empty, Schedule { directories: vec![], transfers: vec![], workers: 1 });
}

#[test]
fn source_missing() {
    let d = driver(false, false);
    let sources = vec![source("/this/should/not/exist", "exist", None)];
    let r = d.copy_all(&sources, &dest("/dev/null", PathKind::Other));
    assert_eq!(r, Err(XcpError::InvalidSource("Source does not exist.")));
    assert!(r.unwrap_err().message().contains("Source does not exist."));
}

#[test]
fn a_directory_source_without_recursion_is_refused() {
    let d = driver(false, false);
    let sources = vec![source("/t/mydir", "mydir", Some(dir(vec![])))];
    let r = d.copy_all(&sources, &dest("/t/dest", PathKind::Directory));
    assert_eq!(
        r,
        Err(XcpError::InvalidSource("Source is directory and --recursive not specified."))
    );
    let r = d.copy_single(&sources[0], &dest("/t/dest", PathKind::Missing));
    assert_eq!(
        r,
        Err(XcpError::InvalidSource("Source is directory and --recursive not specified."))
    );
}

#[test]
fn multiple_sources_into_a_non_directory_are_refused() {
    let d = driver(true, false);
    let sources = vec![
        source("/t/a", "a", Some(Entry::File { size: 1 })),
        source("/t/b", "b", None),
    ];
    let refused =
        Err(XcpError::InvalidDestination("Multiple sources and destination is not a directory."));
    assert_eq!(d.copy_all(&sources, &dest("/t/f", PathKind::File)), refused);
    assert_eq!(d.copy_all(&sources, &dest("/t/f", PathKind::Missing)), refused);
    assert_eq!(d.copy_all(&sources, &dest("/t/f", PathKind::Other)), refused);
}

#[test]
fn no_sources_are_refused() {
    let d = driver(true, false);
    let r = d.copy_all(&vec![], &dest("/t/d", PathKind::Directory));
    assert_eq!(r, Err(XcpError::InvalidSource("No source files found.")));
}

#[test]
fn the_first_faulty_source_decides() {
    let d = driver(false, false);
    let sources = vec![
        source("/t/a", "a", Some(Entry::File { size: 1 })),
        source("/t/d", "d", Some(dir(vec![]))),
        source("/t/missing", "missing", None),
    ];
    assert_eq!(
        d.copy_all(&sources, &dest("/t/out", PathKind::Directory)),
        Err(XcpError::InvalidSource("Source is directory and --recursive not specified."))
    );
}

#[test]
fn copying_a_directory_into_itself_is_refused() {
    let d = driver(true, false);
    let mut s = source("/t/d", "d", Some(dir(vec![])));
    s.is_destination = true;
    assert_eq!(
        d.copy_all(&vec![s], &dest("/t/d", PathKind::Directory)),
        Err(XcpError::InvalidSource("Cannot copy a directory into itself"))
    );
}

#[test]
fn a_destination_that_is_no_directory_blocks_a_copy_into_it() {
    let d = driver(true, false);
    let sources = vec![source("/t/d", "d", Some(dir(vec![])))];
    let refused = Err(XcpError::InvalidDestination(
        "Source is directory but target exists and is not a directory",
    ));
    assert_eq!(d.copy_all(&sources, &dest("/dev/null", PathKind::Other)), refused);
    assert_eq!(d.copy_all(&sources, &dest("/t/f", PathKind::File)), refused);
    assert_eq!(d.copy_single(&sources[0], &dest("/t/f", PathKind::File)), refused);
    assert_eq!(d.copy_single(&sources[0], &dest("/dev/null", PathKind::Other)), refused);
}

#[test]
fn a_file_may_be_written_onto_something_that_is_no_directory() {
    let d = driver(false, false);
    let sources = vec![source("/t/a.txt", "a.txt", Some(Entry::File { size: 3 }))];
    let schedule = d.copy_all(&sources, &dest("/dev/null", PathKind::Other)).unwrap();
    assert_eq!(schedule.transfers, vec![op(OpKind::File { size: 3 }, "/t/a.txt", &[])]);
    let schedule = d.copy_all(&sources, &dest("/t/b.txt", PathKind::File)).unwrap();
    assert_eq!(schedule.transfers, vec![op(OpKind::File { size: 3 }, "/t/a.txt", &[])]);
}

#[test]
fn a_single_file_is_copied_onto_the_destination_path() {
    let d = driver(false, false);
    let s = source("a.txt", "a.txt", Some(Entry::File { size: 21 }));
    let schedule = d.copy_single(&s, &dest("b.txt", PathKind::File)).unwrap();
    assert_eq!(
        schedule,
        Schedule {
            directories: vec![],
            transfers: vec![op(OpKind::File { size: 21 }, "a.txt", &[])],
            workers: 4,
        }
    );
}

#[test]
fn no_clobber_refuses_a_single_copy_onto_an_existing_file() {
    let d = driver(false, true);
    let s = source("source.txt", "source.txt", Some(Entry::File { size: 0 }));
    let r = d.copy_single(&s, &dest("dest.txt", PathKind::File));
    assert_eq!(
        r,
        Err(XcpError::DestinationExists(
            "Destination file exists and --no-clobber is set.",
            text("dest.txt")
        ))
    );
    assert!(d.copy_single(&s, &dest("dest.txt", PathKind::Missing)).is_ok());
}

#[test]
fn a_file_copied_onto_itself_is_refused() {
    let d = driver(false, false);
    let mut s = source("a.txt", "a.txt", Some(Entry::File { size: 21 }));
    s.is_destination = true;
    let r = d.copy_single(&s, &dest("a.txt", PathKind::File));
    assert_eq!(
        r,
        Err(XcpError::DestinationExists("Source and destination is the same file.", text("a.txt")))
    );
    assert!(r.unwrap_err().message().contains("same file"));
}

#[test]
fn a_missing_source_is_reported_before_the_same_file() {
    let d = driver(false, false);
    let mut s = source("nope", "nope", None);
    s.is_destination = true;
    let missing = Err(XcpError::InvalidSource("Source does not exist."));
    assert_eq!(d.copy_single(&s, &dest("nope", PathKind::Missing)), missing);
    assert_eq!(d.copy_single(&s, &dest("nope", PathKind::File)), missing);
    assert_eq!(d.copy_all(&vec![s], &dest("nope", PathKind::Missing)), missing);
}

#[test]
fn no_clobber_is_reported_before_a_missing_source() {
    let d = driver(false, true);
    let s = source("nope", "nope", None);
    assert_eq!(
        d.copy_single(&s, &dest("dest.txt", PathKind::File)),
        Err(XcpError::DestinationExists(
            "Destination file exists and --no-clobber is set.",
            text("dest.txt")
        ))
    );
}

#[test]
fn a_single_missing_source_is_refused() {
    let d = driver(false, false);
    let s = source("nope", "nope", None);
    assert_eq!(
        d.copy_single(&s, &dest("b.txt", PathKind::File)),
        Err(XcpError::InvalidSource("Source does not exist."))
    );
}

#[test]
fn dest_file_in_dir_exists() {
    let d = driver(false, true);
    let sources = vec![source("/t/source.txt", "source.txt", Some(Entry::File { size: 0 }))];
    let schedule = d.copy_all(&sources, &dest("/t", PathKind::Directory)).unwrap();
    let first = &schedule.transfers[0];
    let r = d.check_target(first, true, text("/t/source.txt"));
    assert_eq!(
        r,
        Err(XcpError::DestinationExists(
            "Destination file exists and --no-clobber is set.",
            text("/t/source.txt")
        ))
    );
    assert!(r.unwrap_err().message().contains("Destination file exists"));
    assert_eq!(d.check_target(first, false, text("/t/source.txt")), Ok(()));
}

#[test]
fn existing_targets_are_written_over_without_no_clobber() {
    let d = driver(false, false);
    let file = op(OpKind::File { size: 1 }, "a", &["a"]);
    assert_eq!(d.check_target(&file, true, text("/t/a")), Ok(()));
}

#[test]
fn no_clobber_lets_directories_be_entered_but_protects_links() {
    let d = driver(true, true);
    let directory = op(OpKind::Directory, "d", &["d"]);
    let link = op(OpKind::Symlink { target: text("x") }, "l", &["l"]);
    assert_eq!(d.check_target(&directory, true, text("/t/d")), Ok(()));
    assert_eq!(
        d.check_target(&link, true, text("/t/l")),
        Err(XcpError::DestinationExists(
            "Destination file exists and --no-clobber is set.",
            text("/t/l")
        ))
    );
}

#[test]
fn a_failure_names_the_operation_and_the_cause() {
    let file = op(OpKind::File { size: 1 }, "/s/a.txt", &["a.txt"]);
    assert_eq!(
        failure(&file, "Permission denied (os error 13)"),
        StatusUpdate::Error(XcpError::Io(text("/s/a.txt: Permission denied (os error 13)")))
    );
}
