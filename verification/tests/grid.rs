use colored::control::set_override;
use dirlist::entry::{Entry, FileKind, Metadata};
use dirlist::error::ListError;
use dirlist::grid::{file_names, format_output_short, render_grid, GUTTER};
use dirlist::style::Cell;
use dirlist::time::Timestamp;

fn entry(name: &str, kind: FileKind) -> Entry {
    Entry {
        name: name.to_string(),
        metadata: Some(Metadata {
            kind,
            mode: 0o644,
            uid: 0,
            gid: 0,
            nlink: 1,
            len: 0,
            ino: 1,
            modified: Timestamp::new(0, 0, 0).unwrap(),
        }),
        target: None,
        xattrs: vec![],
        owner: None,
        group: None,
    }
}

fn files(names: &[&str]) -> Vec<Entry> {
    names.iter().map(|n| entry(n, FileKind::Regular)).collect()
}

#[test]
fn gutter_is_two_spaces() {
    assert_eq!(GUTTER, 2);
}

#[test]
fn unknown_width_is_an_error() {
    assert_eq!(format_output_short(&files(&["a"]), false, None), Err(ListError::TerminalWidth));
    assert_eq!(format_output_short(&vec![], true, None), Err(ListError::TerminalWidth));
}

#[test]
fn empty_grid_is_empty() {
    assert_eq!(format_output_short(&vec![], false, Some(80)), Ok(String::new()));
}

#[test]
fn names_that_fit_share_a_line() {
    set_override(false);
    let entries = vec![entry("a.txt", FileKind::Regular), entry("b", FileKind::Directory)];
    assert_eq!(format_output_short(&entries, false, Some(80)), Ok("a.txt  b/\n".to_string()));
    assert_eq!(format_output_short(&entries, true, Some(80)), Ok("a.txt  b/\n".to_string()));
}

#[test]
fn grid_fills_downwards_by_default() {
    set_override(false);
    let entries = files(&["aa", "bb", "cc", "dd", "ee"]);
    assert_eq!(format_output_short(&entries, false, Some(10)), Ok("aa  cc  ee\nbb  dd\n".to_string()));
}

#[test]
fn grid_fills_across_on_request() {
    set_override(false);
    let entries = files(&["aa", "bb", "cc", "dd", "ee"]);
    assert_eq!(format_output_short(&entries, true, Some(10)), Ok("aa  bb  cc\ndd  ee\n".to_string()));
}

#[test]
fn columns_are_as_wide_as_their_widest_name() {
    set_override(false);
    let entries = files(&["a", "bbbb", "c", "d"]);
    assert_eq!(format_output_short(&entries, false, Some(9)), Ok("a     c\nbbbb  d\n".to_string()));
}

#[test]
fn a_narrow_terminal_gets_one_name_a_line() {
    set_override(false);
    let entries = files(&["alpha", "beta", "gamma"]);
    assert_eq!(format_output_short(&entries, false, Some(3)), Ok("alpha\nbeta\ngamma\n".to_string()));
}

#[test]
fn colours_do_not_count_as_width() {
    set_override(true);
    let entries = vec![entry("d1", FileKind::Directory), entry("d2", FileKind::Directory)];
    let text = format_output_short(&entries, false, Some(8)).unwrap();
    assert_eq!(text, "\u{1b}[34md1\u{1b}[0m/  \u{1b}[34md2\u{1b}[0m/\n");
}

#[test]
fn no_line_is_wider_than_the_terminal_and_each_name_shows_once() {
    set_override(false);
    let names: Vec<String> = (0..57).map(|i| format!("file{}{}", "x".repeat(i % 9), i)).collect();
    let refs: Vec<&str> = names.iter().map(|s| s.as_str()).collect();
    let entries = files(&refs);
    let widest = names.iter().map(|n| n.len()).max().unwrap();
    for across in [false, true] {
        for width in [widest + GUTTER, 20, 40, 80, 132, 500] {
            let text = format_output_short(&entries, across, Some(width as u16)).unwrap();
            let mut seen: Vec<&str> = Vec::new();
            for line in text.lines() {
                assert!(line.chars().count() <= width, "line {line:?} at width {width}");
                seen.extend(line.split_whitespace());
            }
            let mut expected = refs.clone();
            expected.sort();
            seen.sort();
            assert_eq!(seen, expected);
        }
    }
}

#[test]
fn file_names_are_short_or_long() {
    let mut link = entry("l", FileKind::Symlink);
    link.target = Some(dirlist::entry::LinkTarget { path: "t".to_string(), exists: true });
    let entries = vec![entry("a", FileKind::Regular), link];
    let short: Vec<String> = file_names(&entries, false).iter().map(Cell::plain).collect();
    let long: Vec<String> = file_names(&entries, true).iter().map(Cell::plain).collect();
    assert_eq!(short, vec!["a", "l@"]);
    assert_eq!(long, vec!["a", "l -> t"]);
}

#[test]
fn render_grid_lays_cells_out() {
    set_override(false);
    let cells = vec![Cell::of("one", None), Cell::of("two", None), Cell::of("three", None)];
    assert_eq!(render_grid(&cells, true, 80), "one  two  three\n");
    assert_eq!(render_grid(&cells, false, 10), "one  three\ntwo\n");
}
