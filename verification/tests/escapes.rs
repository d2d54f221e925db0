use colored::control::set_override;
use dirlist::args::{Args, TimeStyle};
use dirlist::entry::{Entry, FileKind, Metadata};
use dirlist::grid::format_output_short;
use dirlist::listing::format_output_oneline;
use dirlist::table::format_output_long;
use dirlist::time::Timestamp;

fn entry(name: String) -> Entry {
    Entry {
        name,
        metadata: Some(Metadata {
            kind: FileKind::Directory,
            mode: 0o755,
            uid: 1,
            gid: 1,
            nlink: 1,
            len: 0,
            ino: 1,
            modified: Timestamp::new(0, 0, 0).unwrap(),
        }),
        target: None,
        xattrs: vec!["\u{1b}[0mx".to_string()],
        owner: Some("\u{1b}]0;o\u{7}".to_string()),
        group: None,
    }
}

fn odd_names() -> Vec<String> {
    let pieces = [
        "\u{1b}", "[", "0", "m", ";", "\u{1b}[0m", "\u{1b}]", "\u{7}", "\\", "\n", "\t", "é", "名",
        "a", " ", "\u{9b}", "?", "\u{1b}P", "\u{1b}[38;5;", "9999999999999999999999", "\u{0}",
    ];
    let mut names = Vec::new();
    let mut state: u64 = 7;
    for _ in 0..400 {
        let mut name = String::new();
        for _ in 0..(state % 9) {
            state = state.wrapping_mul(6364136223846793005).wrapping_add(1442695040888963407);
            name.push_str(pieces[(state >> 33) as usize % pieces.len()]);
        }
        state = state.wrapping_mul(6364136223846793005).wrapping_add(1442695040888963407);
        if name != "." && name != ".." {
            names.push(name);
        }
    }
    names
}

#[test]
fn names_with_escape_sequences_are_laid_out() {
    for colours in [false, true] {
        set_override(colours);
        let entries: Vec<Entry> = odd_names().into_iter().map(entry).collect();
        let args = Args { extended: true, time_style: TimeStyle::Iso, ..Args::default() };
        let now = Timestamp::new(0, 0, 0).unwrap();
        let table = format_output_long(&entries, &args, &now).unwrap();
        assert!(table.lines().count() >= 2 * entries.len());
        for width in [0, 1, 7, 80, u16::MAX] {
            for across in [false, true] {
                assert!(format_output_short(&entries, across, Some(width)).is_ok());
            }
        }
        assert!(format_output_oneline(&entries).is_ok());
    }
}

#[test]
fn a_grid_of_empty_names_is_laid_out() {
    set_override(false);
    let entries: Vec<Entry> = (0..5).map(|_| entry(String::new())).collect();
    for width in [0, 1, 2, 3, 80] {
        assert!(format_output_short(&entries, false, Some(width)).is_ok());
    }
}
