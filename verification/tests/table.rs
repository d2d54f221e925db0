use colored::control::set_override;
use dirlist::args::{Args, TimeStyle};
use dirlist::entry::{Entry, FileKind, LinkTarget, Metadata};
use dirlist::error::ListError;
use dirlist::style::{Cell, Span, Tint};
use dirlist::table::{format_output_long, long_table, render_table, COLUMNS};
use dirlist::time::Timestamp;

const NOW: i64 = 1_705_314_600; // 2024-01-15 10:30:00 UTC

fn now() -> Timestamp {
    Timestamp::new(NOW, 0, 0).unwrap()
}

fn entry(name: &str, kind: FileKind, len: u64) -> Entry {
    Entry {
        name: name.to_string(),
        metadata: Some(Metadata {
            kind,
            mode: 0o644,
            uid: 1000,
            gid: 100,
            nlink: 2,
            len,
            ino: 4711,
            modified: Timestamp::new(NOW, 0, 0).unwrap(),
        }),
        target: None,
        xattrs: vec![],
        owner: Some("alice".to_string()),
        group: Some("staff".to_string()),
    }
}

fn iso() -> Args {
    Args { long: true, time_style: TimeStyle::Iso, ..Args::default() }
}

fn plain_rows(rows: &[Vec<Cell>]) -> Vec<Vec<String>> {
    rows.iter().map(|row| row.iter().map(Cell::plain).collect()).collect()
}

#[test]
fn a_table_has_eight_columns() {
    assert_eq!(COLUMNS, 8);
    let rows = long_table(&vec![entry("a.txt", FileKind::Regular, 100)], &iso(), &now()).unwrap();
    assert_eq!(rows.len(), 1);
    assert_eq!(rows[0].len(), 8);
}

#[test]
fn default_columns() {
    let rows = long_table(&vec![entry("a.txt", FileKind::Regular, 100)], &iso(), &now()).unwrap();
    assert_eq!(
        plain_rows(&rows),
        vec![vec!["", "-rw-r--r--", "", "alice", "", "100", "2024-01-15 10:30", "a.txt"]]
    );
    assert_eq!(rows[0][0], Cell { spans: vec![Span { text: String::new(), tint: Some(Tint::White) }] });
    assert_eq!(rows[0][2], Cell { spans: vec![] });
    assert_eq!(rows[0][4], Cell { spans: vec![Span { text: String::new(), tint: Some(Tint::White) }] });
}

#[test]
fn optional_columns() {
    let args = Args { inode: true, links: true, group: true, bytes: true, ..iso() };
    let rows = long_table(&vec![entry("big", FileKind::Regular, 10 * 1024 * 1024)], &args, &now())
        .unwrap();
    assert_eq!(
        plain_rows(&rows),
        vec![vec!["4711", "-rw-r--r--", "2", "alice", "staff", "10485760", "2024-01-15 10:30", "big"]]
    );
    assert_eq!(rows[0][0].spans[0].tint, Some(Tint::Cyan));
    assert_eq!(rows[0][2].spans[0].tint, None);
    assert_eq!(rows[0][3].spans[0].tint, Some(Tint::BrightYellow));
    assert_eq!(rows[0][4].spans[0].tint, Some(Tint::Yellow));
    assert_eq!(rows[0][5].spans[0].tint, Some(Tint::Green));
}

#[test]
fn permissions_can_be_suppressed() {
    let args = Args { no_permissions: true, ..iso() };
    let rows = long_table(&vec![entry("a", FileKind::Regular, 1)], &args, &now()).unwrap();
    assert_eq!(rows[0][1], Cell { spans: vec![] });
}

#[test]
fn unknown_ids_are_shown_as_numbers() {
    let mut e = entry("a", FileKind::Regular, 1);
    e.owner = None;
    e.group = None;
    let args = Args { group: true, ..iso() };
    let rows = long_table(&vec![e], &args, &now()).unwrap();
    assert_eq!(rows[0][3].plain(), "1000");
    assert_eq!(rows[0][4].plain(), "100");
}

#[test]
fn ten_mebibytes_in_a_table() {
    let rows =
        long_table(&vec![entry("big", FileKind::Regular, 10 * 1024 * 1024)], &iso(), &now()).unwrap();
    assert_eq!(rows[0][5].plain(), "10.0M");
}

#[test]
fn extended_attributes_follow_their_entry() {
    let mut e = entry("a.txt", FileKind::Regular, 100);
    e.xattrs = vec!["user.a".to_string(), "user.b".to_string()];
    let other = entry("z", FileKind::Regular, 1);
    let args = Args { extended: true, ..iso() };
    let rows = long_table(&vec![e, other], &args, &now()).unwrap();
    assert_eq!(
        plain_rows(&rows),
        vec![
            vec!["", "-rw-r--r--@", "", "alice", "", "100", "2024-01-15 10:30", "a.txt"],
            vec!["", "", "", "", "", "", "", "├── user.a"],
            vec!["", "", "", "", "", "", "", "└── user.b"],
            vec!["", "-rw-r--r--", "", "alice", "", "1", "2024-01-15 10:30", "z"],
        ]
    );
    for row in &rows[1..3] {
        for cell in &row[..7] {
            assert_eq!(*cell, Cell { spans: vec![] });
        }
        assert_eq!(row[7].spans[0].tint, None);
    }
}

#[test]
fn a_single_attribute_gets_the_corner() {
    let mut e = entry("a", FileKind::Regular, 1);
    e.xattrs = vec!["user.only".to_string()];
    let args = Args { extended: true, ..iso() };
    let rows = long_table(&vec![e], &args, &now()).unwrap();
    assert_eq!(rows.len(), 2);
    assert_eq!(rows[1][7].plain(), "└── user.only");
}

#[test]
fn attributes_are_only_marked_unless_asked_for() {
    let mut e = entry("a.txt", FileKind::Regular, 100);
    e.xattrs = vec!["user.a".to_string(), "user.b".to_string()];
    let rows = long_table(&vec![e], &iso(), &now()).unwrap();
    assert_eq!(rows.len(), 1);
    assert_eq!(rows[0][1].plain(), "-rw-r--r--@");
}

#[test]
fn the_first_entry_without_metadata_is_the_error() {
    let mut second = entry("b", FileKind::Regular, 1);
    second.metadata = None;
    let mut third = entry("c", FileKind::Regular, 1);
    third.metadata = None;
    let entries = vec![entry("a", FileKind::Regular, 1), second, third];
    assert_eq!(long_table(&entries, &iso(), &now()), Err(ListError::Metadata(1)));
    assert_eq!(format_output_long(&entries, &iso(), &now()), Err(ListError::Metadata(1)));
}

#[test]
fn pseudo_entries_need_metadata_in_a_table() {
    let mut e = entry(".", FileKind::Directory, 0);
    e.metadata = None;
    assert_eq!(format_output_long(&vec![e], &iso(), &now()), Err(ListError::Metadata(0)));
}

#[test]
fn an_empty_table_is_empty() {
    assert_eq!(format_output_long(&vec![], &iso(), &now()), Ok(String::new()));
}

#[test]
fn table_text_is_aligned() {
    set_override(false);
    let entries = vec![
        entry("a.txt", FileKind::Regular, 100),
        entry("dir", FileKind::Directory, 4096),
        entry("large.bin", FileKind::Regular, 10 * 1024 * 1024),
    ];
    let text = format_output_long(&entries, &iso(), &now()).unwrap();
    assert_eq!(
        text,
        " -rw-r--r--  alice    100 2024-01-15 10:30 a.txt\n \
         drw-r--r--  alice      - 2024-01-15 10:30 dir/\n \
         -rw-r--r--  alice  10.0M 2024-01-15 10:30 large.bin\n"
    );
}

#[test]
fn table_text_with_every_column() {
    set_override(false);
    let mut second = entry("b", FileKind::Regular, 5);
    second.metadata.as_mut().unwrap().ino = 7;
    second.metadata.as_mut().unwrap().nlink = 11;
    second.owner = Some("bob".to_string());
    let entries = vec![entry("a", FileKind::Regular, 100), second];
    let args = Args { inode: true, links: true, group: true, ..iso() };
    let text = format_output_long(&entries, &args, &now()).unwrap();
    assert_eq!(
        text,
        "4711 -rw-r--r--  2 alice staff 100 2024-01-15 10:30 a\n   \
         7 -rw-r--r-- 11 bob   staff   5 2024-01-15 10:30 b\n"
    );
}

#[test]
fn table_text_with_extended_attributes() {
    set_override(false);
    let mut e = entry("a.txt", FileKind::Regular, 100);
    e.xattrs = vec!["user.a".to_string(), "user.b".to_string()];
    let args = Args { extended: true, ..iso() };
    let text = format_output_long(&vec![e], &args, &now()).unwrap();
    let lines: Vec<&str> = text.lines().collect();
    assert_eq!(lines.len(), 3);
    assert_eq!(lines[0], " -rw-r--r--@  alice  100 2024-01-15 10:30 a.txt");
    assert_eq!(lines[1].trim_start(), "├── user.a");
    assert_eq!(lines[2].trim_start(), "└── user.b");
    let column = lines[0].find("a.txt").unwrap();
    assert_eq!(lines[1].find('├'), Some(column));
    assert_eq!(lines[2].find('└'), Some(column));
}

#[test]
fn table_colours_do_not_count_as_width() {
    set_override(true);
    let entries = vec![entry("a", FileKind::Regular, 1), entry("dd", FileKind::Directory, 1)];
    let args = Args { no_permissions: true, ..iso() };
    let text = format_output_long(&entries, &args, &now()).unwrap();
    let stripped = String::from_utf8(strip(&text)).unwrap();
    assert_eq!(stripped, "   alice  1 2024-01-15 10:30 a\n   alice  - 2024-01-15 10:30 dd/\n");
    assert!(text.contains("\u{1b}[93malice\u{1b}[0m"));
}

fn strip(text: &str) -> Vec<u8> {
    let mut out = Vec::new();
    let mut bytes = text.bytes();
    while let Some(b) = bytes.next() {
        if b == 0x1b {
            for c in bytes.by_ref() {
                if c == b'm' {
                    break;
                }
            }
        } else {
            out.push(b);
        }
    }
    out
}

#[test]
fn symlinks_show_their_target_in_a_table() {
    set_override(false);
    let mut e = entry("l", FileKind::Symlink, 3);
    e.target = Some(LinkTarget { path: "a.txt".to_string(), exists: true });
    let text = format_output_long(&vec![e], &iso(), &now()).unwrap();
    assert_eq!(text, " lrw-r--r--  alice  - 2024-01-15 10:30 l -> a.txt\n");
}

#[test]
fn render_table_aligns_given_rows() {
    set_override(false);
    let row = |cells: [&str; 8]| cells.iter().map(|c| Cell::of(c, None)).collect::<Vec<Cell>>();
    let rows = vec![
        row(["1", "a", "2", "b", "c", "3", "d", "e"]),
        row(["10", "aa", "20", "bb", "cc", "30", "dd", "ee"]),
    ];
    assert_eq!(render_table(&rows), " 1 a   2 b  c   3 d  e\n10 aa 20 bb cc 30 dd ee\n");
}

#[test]
fn error_messages() {
    assert_eq!(ListError::TerminalWidth.message(), "Failed to get terminal width.");
    assert_eq!(ListError::Metadata(3).message(), "Failed to get the metadata of entry 3.");
}
