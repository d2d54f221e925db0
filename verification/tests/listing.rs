use colored::control::set_override;
use dirlist::args::{Args, TimeStyle};
use dirlist::entry::{Entry, FileKind, Metadata};
use dirlist::error::ListError;
use dirlist::listing::{
    directory_header, files_in, format_output, format_output_oneline, layout, missing_path_message,
    split_paths, Candidate, Layout,
};
use dirlist::order::{name_precedes, sort_names};
use dirlist::time::Timestamp;

fn now() -> Timestamp {
    Timestamp::new(1_705_314_600, 0, 0).unwrap()
}

fn entry(name: &str, kind: FileKind, len: u64) -> Entry {
    Entry {
        name: name.to_string(),
        metadata: Some(Metadata {
            kind,
            mode: 0o644,
            uid: 1000,
            gid: 100,
            nlink: 1,
            len,
            ino: 1,
            modified: now(),
        }),
        target: None,
        xattrs: vec![],
        owner: Some("alice".to_string()),
        group: None,
    }
}

fn file(name: &str) -> Candidate {
    Candidate { name: name.to_string(), is_file: true, is_dir: false }
}

fn dir(name: &str) -> Candidate {
    Candidate { name: name.to_string(), is_file: false, is_dir: true }
}

fn other(name: &str) -> Candidate {
    Candidate { name: name.to_string(), is_file: false, is_dir: false }
}

fn sample() -> Vec<Candidate> {
    vec![dir("b"), file(".hidden"), file("a.txt")]
}

#[test]
fn hidden_entries_are_left_out_by_default() {
    assert_eq!(files_in(&sample(), &Args::default()), vec!["a.txt", "b"]);
}

#[test]
fn all_once_shows_hidden_entries() {
    let args = Args { all: 1, ..Args::default() };
    assert_eq!(files_in(&sample(), &args), vec![".hidden", "a.txt", "b"]);
}

#[test]
fn all_twice_puts_the_pseudo_entries_in_front() {
    for all in [2, 3, 255] {
        let args = Args { all, ..Args::default() };
        assert_eq!(files_in(&sample(), &args), vec![".", "..", ".hidden", "a.txt", "b"]);
    }
    let args = Args { all: 2, ..Args::default() };
    assert_eq!(files_in(&vec![], &args), vec![".", ".."]);
}

#[test]
fn only_dirs_leaves_files_out() {
    let args = Args { only_dirs: true, ..Args::default() };
    let found = vec![dir("b"), file("a.txt"), other("socket")];
    assert_eq!(files_in(&found, &args), vec!["socket", "b"]);
}

#[test]
fn files_come_before_directories() {
    let found = vec![dir("a"), file("b.txt")];
    assert_eq!(files_in(&found, &Args::default()), vec!["b.txt", "a"]);
    let found = vec![dir("m"), file("z"), dir("a"), file("n"), other("b"), dir(".d"), file(".f")];
    assert_eq!(files_in(&found, &Args::default()), vec!["b", "n", "z", "a", "m"]);
    let all = Args { all: 1, ..Args::default() };
    assert_eq!(files_in(&found, &all), vec![".f", "b", "n", "z", ".d", "a", "m"]);
    let twice = Args { all: 2, ..Args::default() };
    assert_eq!(files_in(&found, &twice), vec![".", "..", ".f", "b", "n", "z", ".d", "a", "m"]);
}

#[test]
fn a_link_to_a_directory_counts_as_a_directory() {
    let link = Candidate { name: "0link".to_string(), is_file: false, is_dir: true };
    assert_eq!(files_in(&vec![link, file("z")], &Args::default()), vec!["z", "0link"]);
}

#[test]
fn an_empty_name_is_not_hidden() {
    let found = vec![file("x"), file("")];
    assert_eq!(files_in(&found, &Args::default()), vec!["", "x"]);
}

#[test]
fn pseudo_entries_stand_only_in_front() {
    let found = vec![dir("b"), file(".hidden"), file("a.txt"), file("..."), dir(".x")];
    for all in 0..4u8 {
        let names = files_in(&found, &Args { all, ..Args::default() });
        let own = if all >= 2 {
            assert_eq!(names[..2], [".".to_string(), "..".to_string()]);
            &names[2..]
        } else {
            &names[..]
        };
        assert!(own.iter().all(|n| n != "." && n != ".."));
    }
}

#[test]
fn only_files_leaves_directories_out() {
    let args = Args { only_files: true, ..Args::default() };
    let found = vec![dir("b"), file("a.txt"), other("socket")];
    assert_eq!(files_in(&found, &args), vec!["a.txt", "socket"]);
}

#[test]
fn both_filters_together_cancel_out() {
    let args = Args { only_files: true, only_dirs: true, ..Args::default() };
    assert_eq!(files_in(&sample(), &args), vec!["a.txt", "b"]);
}

#[test]
fn names_are_sorted_by_their_bytes() {
    let found = vec![file("b"), file("B"), file("a"), file("é"), file("ab"), file("_"), file("a")];
    assert_eq!(files_in(&found, &Args::default()), vec!["B", "_", "a", "a", "ab", "b", "é"]);
}

#[test]
fn sort_names_agrees_with_the_standard_order() {
    let names: Vec<String> =
        ["zeta", "Alpha", "alpha", "", "10", "9", "a b", "a-b", "ü", "z", "alph"].iter().map(|s| s.to_string()).collect();
    let mut expected = names.clone();
    expected.sort();
    assert_eq!(sort_names(&names), expected);
    for a in &names {
        for b in &names {
            assert_eq!(name_precedes(a, b), a <= b, "{a:?} {b:?}");
        }
    }
}

#[test]
fn split_paths_keeps_the_order() {
    let paths = vec![file("a"), dir("d1"), other("s"), dir("d0"), file("b")];
    let (files, directories) = split_paths(&paths);
    assert_eq!(files, vec!["a", "s", "b"]);
    assert_eq!(directories, vec!["d1", "d0"]);
}

#[test]
fn one_name_on_each_line() {
    set_override(false);
    let entries = vec![entry("a.txt", FileKind::Regular, 100), entry("b", FileKind::Directory, 0)];
    assert_eq!(format_output_oneline(&entries), Ok("a.txt\nb/\n".to_string()));
    assert_eq!(format_output_oneline(&vec![]), Ok(String::new()));
}

#[test]
fn one_name_on_each_line_in_colour() {
    set_override(true);
    let entries = vec![entry("a.txt", FileKind::Regular, 100), entry("b", FileKind::Directory, 0)];
    assert_eq!(format_output_oneline(&entries), Ok("a.txt\n\u{1b}[34mb\u{1b}[0m/\n".to_string()));
}

#[test]
fn layout_prefers_the_list_then_the_table() {
    assert_eq!(layout(&Args::default()), Layout::Grid);
    assert_eq!(layout(&Args { long: true, ..Args::default() }), Layout::Table);
    assert_eq!(layout(&Args { oneline: true, ..Args::default() }), Layout::OneLine);
    assert_eq!(layout(&Args { oneline: true, long: true, ..Args::default() }), Layout::OneLine);
}

#[test]
fn format_output_follows_the_layout() {
    set_override(false);
    let entries = vec![entry("a.txt", FileKind::Regular, 100), entry("b", FileKind::Directory, 0)];
    let grid = Args::default();
    assert_eq!(format_output(&entries, &grid, Some(80), &now()), Ok("a.txt  b/\n".to_string()));
    assert_eq!(format_output(&entries, &grid, None, &now()), Err(ListError::TerminalWidth));
    let list = Args { oneline: true, ..Args::default() };
    assert_eq!(format_output(&entries, &list, None, &now()), Ok("a.txt\nb/\n".to_string()));
    let table = Args { long: true, time_style: TimeStyle::Iso, ..Args::default() };
    assert_eq!(
        format_output(&entries, &table, None, &now()),
        Ok(" -rw-r--r--  alice  100 2024-01-15 10:30 a.txt\n \
            drw-r--r--  alice    - 2024-01-15 10:30 b/\n"
            .to_string())
    );
}

#[test]
fn a_directory_with_a_subdirectory_that_sorts_first() {
    set_override(false);
    let names = files_in(&vec![dir("a"), file("b.txt")], &Args::default());
    let entries: Vec<Entry> = names
        .iter()
        .map(|n| entry(n, if n == "a" { FileKind::Directory } else { FileKind::Regular }, 1))
        .collect();
    let shown = format_output(&entries, &Args::default(), Some(80), &now());
    assert_eq!(shown, Ok("b.txt  a/\n".to_string()));
}

#[test]
fn entries_without_metadata_are_listed_by_their_bare_names() {
    set_override(false);
    let mut gone = entry("gone", FileKind::Directory, 0);
    gone.metadata = None;
    let entries = vec![entry("a", FileKind::Directory, 0), gone];
    assert_eq!(format_output_oneline(&entries), Ok("a/\ngone\n".to_string()));
    assert_eq!(format_output(&entries, &Args::default(), Some(80), &now()), Ok("a/  gone\n".to_string()));
    assert_eq!(directory_header(&entries[1]), "\ngone:");
}

#[test]
fn listing_a_directory_end_to_end() {
    set_override(false);
    let found = vec![dir("b"), file(".hidden"), file("a.txt")];
    let describe = |names: Vec<String>| -> Vec<Entry> {
        names
            .iter()
            .map(|n| match n.as_str() {
                "a.txt" => entry(n, FileKind::Regular, 100),
                ".hidden" => entry(n, FileKind::Regular, 50),
                _ => entry(n, FileKind::Directory, 0),
            })
            .collect()
    };
    let plain = Args::default();
    let shown = format_output(&describe(files_in(&found, &plain)), &plain, Some(80), &now());
    assert_eq!(shown, Ok("a.txt  b/\n".to_string()));
    let all = Args { all: 1, ..Args::default() };
    let shown = format_output(&describe(files_in(&found, &all)), &all, Some(80), &now());
    assert_eq!(shown, Ok(".hidden  a.txt  b/\n".to_string()));
    let twice = Args { all: 2, ..Args::default() };
    let shown = format_output(&describe(files_in(&found, &twice)), &twice, Some(80), &now());
    assert_eq!(shown, Ok("./  ../  .hidden  a.txt  b/\n".to_string()));
}

#[test]
fn header_of_a_directory() {
    set_override(false);
    assert_eq!(directory_header(&entry("src", FileKind::Directory, 0)), "\nsrc/:");
    set_override(true);
    assert_eq!(directory_header(&entry("src", FileKind::Directory, 0)), "\n\u{1b}[34msrc\u{1b}[0m/:");
}

#[test]
fn report_of_a_missing_path() {
    set_override(false);
    let mut gone = entry("nowhere", FileKind::Regular, 0);
    gone.metadata = None;
    assert_eq!(missing_path_message(&gone), "nowhere: No such file or directory.");
    let dangling = entry("link", FileKind::Symlink, 0);
    assert_eq!(missing_path_message(&dangling), "link@: No such file or directory.");
}
