//! One listing: which entries of a directory are shown and in what order,
//! the flat list, and the choice among list, table and grid.

use crate::args::Args;
use crate::entry::{dot, dot_dot, entries_of, is_pseudo_name, texts_of, Entry, EntryView};
use crate::error::ListError;
use crate::grid::{format_output_short, grid_text, name_cells, GUTTER};
use crate::name::{file_name, name_cell};
use crate::order::{sort_names, sorted};
use crate::paint::{cells_painted, lemma_paints_bare, lemma_paints_concat, paints};
use crate::style::{span, SpanView};
use crate::table::{
    all_have_metadata, first_without_metadata, format_output_long, long_rows, row_format,
    rows_painted, table_text,
};
use crate::time::{Instant, Timestamp};
use vstd::prelude::*;
use vstd::seq_lib::{to_multiset_contains, to_multiset_len};

verus! {

/// What was found in a directory, or named on the command line: a name, and
/// whether it leads to a regular file or to a directory. Both are false for
/// anything else, a dangling link among them.
#[derive(Clone, Debug, PartialEq, Eq)]
pub struct Candidate {
    pub name: String,
    pub is_file: bool,
    pub is_dir: bool,
}

/// The mathematical value of a [`Candidate`].
pub ghost struct CandidateView {
    pub name: Seq<char>,
    pub is_file: bool,
    pub is_dir: bool,
}

impl View for Candidate {
    type V = CandidateView;

    open spec fn view(&self) -> CandidateView {
        CandidateView { name: self.name@, is_file: self.is_file, is_dir: self.is_dir }
    }
}

/// The views of a sequence of candidates.
pub open spec fn candidates_of(v: Seq<Candidate>) -> Seq<CandidateView> {
    Seq::new(v.len(), |i: int| v[i]@)
}

/// A hidden name starts with a dot.
pub open spec fn is_hidden(name: Seq<char>) -> bool {
    name.len() > 0 && name[0] == '.'
}

/// The candidate is shown: where exactly one of `only_dirs` and
/// `only_files` is set, a file is left out of a listing of directories and a
/// directory out of a listing of files; a hidden name is shown only where
/// `all` is set.
pub open spec fn selected(candidate: CandidateView, args: Args) -> bool {
    &&& args.only_dirs != args.only_files ==> !(args.only_dirs && candidate.is_file)
        && !(args.only_files && candidate.is_dir)
    &&& args.all > 0 || !is_hidden(candidate.name)
}

/// The names of the candidates that are shown and that are directories,
/// where `dirs` is set, or of those that are shown and are none, in the
/// order in which they were found.
pub open spec fn selected_names(found: Seq<CandidateView>, args: Args, dirs: bool) -> Seq<
    Seq<char>,
>
    decreases found.len(),
{
    if found.len() == 0 {
        Seq::empty()
    } else if selected(found.last(), args) && found.last().is_dir == dirs {
        selected_names(found.drop_last(), args, dirs).push(found.last().name)
    } else {
        selected_names(found.drop_last(), args, dirs)
    }
}

/// The part of a listing that comes from the directory itself: all of it,
/// or what follows `.` and `..` where these are shown.
pub open spec fn own_names(names: Seq<Seq<char>>, args: Args) -> Seq<Seq<char>> {
    if args.all >= 2 {
        names.skip(2)
    } else {
        names
    }
}

/// `names` holds each name of `wanted` as often as `wanted` does, in the
/// order of names.
pub open spec fn in_order(names: Seq<Seq<char>>, wanted: Seq<Seq<char>>) -> bool {
    sorted(names) && names.to_multiset() == wanted.to_multiset()
}

/// `names` is the listing of a directory in which `found` was found: `.`
/// and `..` where `all` is 2 or more; then what is shown and is no
/// directory, in the order of names; then the directories that are shown,
/// in the order of names.
pub open spec fn is_listing(found: Seq<CandidateView>, args: Args, names: Seq<Seq<char>>) -> bool {
    let own = own_names(names, args);
    let files = selected_names(found, args, false);
    let directories = selected_names(found, args, true);
    &&& args.all >= 2 ==> names.len() >= 2 && names[0] == dot() && names[1] == dot_dot()
    &&& own.len() == files.len() + directories.len()
    &&& in_order(own.take(files.len() as int), files)
    &&& in_order(own.skip(files.len() as int), directories)
}

/// Whether `candidate` is shown.
fn is_selected(candidate: &Candidate, args: &Args) -> (shown: bool)
    ensures
        shown == selected(candidate@, *args),
{
    if args.only_dirs != args.only_files {
        if args.only_dirs && candidate.is_file {
            return false;
        }
        if args.only_files && candidate.is_dir {
            return false;
        }
    }
    let name = candidate.name.as_str();
    args.all > 0 || name.is_empty() || name.get_char(0) != '.'
}

/// The names to list of a directory in which `found` was found: files
/// before directories, each group in the order of names.
pub fn files_in(found: &Vec<Candidate>, args: &Args) -> (names: Vec<String>)
    ensures
        is_listing(candidates_of(found@), *args, texts_of(names@)),
{
    let ghost all = candidates_of(found@);
    let mut files: Vec<String> = Vec::new();
    let mut directories: Vec<String> = Vec::new();
    let mut i: usize = 0;
    assert(texts_of(files@) =~= selected_names(all.take(0), *args, false));
    assert(texts_of(directories@) =~= selected_names(all.take(0), *args, true));
    while i < found.len()
        invariant
            i <= found.len(),
            all == candidates_of(found@),
            texts_of(files@) == selected_names(all.take(i as int), *args, false),
            texts_of(directories@) == selected_names(all.take(i as int), *args, true),
        decreases found.len() - i,
    {
        let candidate = &found[i];
        assert(all[i as int] == candidate@);
        assert(all.take(i + 1).drop_last() =~= all.take(i as int));
        if is_selected(candidate, args) {
            if candidate.is_dir {
                let ghost before = texts_of(directories@);
                directories.push(candidate.name.clone());
                assert(texts_of(directories@) =~= before.push(candidate@.name));
            } else {
                let ghost before = texts_of(files@);
                files.push(candidate.name.clone());
                assert(texts_of(files@) =~= before.push(candidate@.name));
            }
        }
        i += 1;
    }
    assert(all.take(i as int) =~= all);
    let mut names = sort_names(&files);
    let mut last = sort_names(&directories);
    let ghost front = texts_of(names@);
    let ghost back = texts_of(last@);
    proof {
        to_multiset_len(front);
        to_multiset_len(back);
        to_multiset_len(texts_of(files@));
        to_multiset_len(texts_of(directories@));
    }
    names.append(&mut last);
    let ghost own = texts_of(names@);
    assert(own =~= front + back);
    assert(own.take(front.len() as int) =~= front);
    assert(own.skip(front.len() as int) =~= back);
    if args.all >= 2 {
        proof {
            reveal_strlit(".");
            reveal_strlit("..");
        }
        names.insert(0, String::from_str("."));
        names.insert(1, String::from_str(".."));
        assert(texts_of(names@).skip(2) =~= own);
        assert(texts_of(names@)[0] =~= dot());
        assert(texts_of(names@)[1] =~= dot_dot());
    }
    names
}

/// No candidate is named `.` or `..`: what a directory is read to hold.
pub open spec fn none_pseudo(found: Seq<CandidateView>) -> bool {
    forall|i: int| 0 <= i < found.len() ==> !is_pseudo_name((#[trigger] found[i]).name)
}

/// Each selected name is the name of a candidate.
proof fn lemma_selected_was_found(found: Seq<CandidateView>, args: Args, dirs: bool, name: Seq<char>)
    requires
        selected_names(found, args, dirs).contains(name),
    ensures
        exists|i: int| 0 <= i < found.len() && (#[trigger] found[i]).name == name,
    decreases found.len(),
{
    if found.len() > 0 {
        let init = found.drop_last();
        let rest = selected_names(init, args, dirs);
        if rest.contains(name) {
            lemma_selected_was_found(init, args, dirs, name);
            let i = choose|i: int| 0 <= i < init.len() && (#[trigger] init[i]).name == name;
            assert(found[i] == init[i]);
        } else {
            let all = selected_names(found, args, dirs);
            let j = choose|j: int| 0 <= j < all.len() && all[j] == name;
            if j < rest.len() {
                assert(rest[j] == name);
            }
            assert(found[found.len() - 1].name == name);
        }
    }
}

/// The pseudo-entries stand in front and nowhere else: where the directory
/// itself holds no `.` and no `..`, a listing with `all` at 2 or more
/// starts with `.` and `..` and names neither again, and a listing with
/// `all` below 2 names neither at all.
pub proof fn lemma_pseudo_entries_lead(found: Seq<CandidateView>, args: Args, names: Seq<Seq<char>>)
    requires
        is_listing(found, args, names),
        none_pseudo(found),
    ensures
        args.all >= 2 ==> names.len() >= 2 && names[0] == dot() && names[1] == dot_dot(),
        forall|j: int|
            (if args.all >= 2 {
                2int
            } else {
                0int
            }) <= j < names.len() ==> !is_pseudo_name(#[trigger] names[j]),
{
    let own = own_names(names, args);
    let files = selected_names(found, args, false);
    let directories = selected_names(found, args, true);
    let first = own.take(files.len() as int);
    let second = own.skip(files.len() as int);
    assert forall|k: int| 0 <= k < own.len() implies !is_pseudo_name(#[trigger] own[k]) by {
        let name = own[k];
        if k < files.len() {
            assert(first[k] == name);
            assert(first.contains(name));
            to_multiset_contains(first, name);
            to_multiset_contains(files, name);
            lemma_selected_was_found(found, args, false, name);
        } else {
            assert(second[k - files.len()] == name);
            assert(second.contains(name));
            to_multiset_contains(second, name);
            to_multiset_contains(directories, name);
            lemma_selected_was_found(found, args, true, name);
        }
    }
    assert forall|j: int|
        (if args.all >= 2 {
            2int
        } else {
            0int
        }) <= j < names.len() implies !is_pseudo_name(#[trigger] names[j]) by {
        if args.all >= 2 {
            assert(own[j - 2] == names[j]);
        }
    }
}

/// The names of the candidates that are directories, where `dirs` is set,
/// or of those that are not, in their order.
pub open spec fn names_where(found: Seq<CandidateView>, dirs: bool) -> Seq<Seq<char>>
    decreases found.len(),
{
    if found.len() == 0 {
        Seq::empty()
    } else if found.last().is_dir == dirs {
        names_where(found.drop_last(), dirs).push(found.last().name)
    } else {
        names_where(found.drop_last(), dirs)
    }
}

/// Splits the paths of the command line into those that are listed as they
/// are and the directories whose contents are listed, each in the order in
/// which they came.
pub fn split_paths(paths: &Vec<Candidate>) -> (groups: (Vec<String>, Vec<String>))
    ensures
        texts_of(groups.0@) == names_where(candidates_of(paths@), false),
        texts_of(groups.1@) == names_where(candidates_of(paths@), true),
{
    let ghost all = candidates_of(paths@);
    let mut files: Vec<String> = Vec::new();
    let mut directories: Vec<String> = Vec::new();
    let mut i: usize = 0;
    assert(texts_of(files@) =~= names_where(all.take(0), false));
    assert(texts_of(directories@) =~= names_where(all.take(0), true));
    while i < paths.len()
        invariant
            i <= paths.len(),
            all == candidates_of(paths@),
            texts_of(files@) == names_where(all.take(i as int), false),
            texts_of(directories@) == names_where(all.take(i as int), true),
        decreases paths.len() - i,
    {
        let path = &paths[i];
        assert(all[i as int] == path@);
        assert(all.take(i + 1).drop_last() =~= all.take(i as int));
        if path.is_dir {
            let ghost before = texts_of(directories@);
            directories.push(path.name.clone());
            assert(texts_of(directories@) =~= before.push(path@.name));
        } else {
            let ghost before = texts_of(files@);
            files.push(path.name.clone());
            assert(texts_of(files@) =~= before.push(path@.name));
        }
        i += 1;
    }
    assert(all.take(i as int) =~= all);
    (files, directories)
}

/// The end of a line.
pub open spec fn line_end() -> Seq<SpanView> {
    seq![span(seq!['\n'], None)]
}

/// The flat list of `entries`: each name as in a table, and the end of its
/// line.
pub open spec fn oneline_cell(entries: Seq<EntryView>) -> Seq<SpanView>
    decreases entries.len(),
{
    if entries.len() == 0 {
        Seq::empty()
    } else {
        oneline_cell(entries.drop_last()) + name_cell(entries.last(), true) + line_end()
    }
}

/// `result` is the flat list of `entries` as terminal text.
pub open spec fn is_oneline_output(entries: Seq<EntryView>, result: Result<String, ListError>) -> bool {
    result matches Ok(text) && paints(oneline_cell(entries), text@)
}

/// `result` is the grid of `entries` as terminal text for a terminal of the
/// width `width`, or the error of an unknown width.
pub open spec fn is_short_output(
    entries: Seq<EntryView>,
    across: bool,
    width: Option<u16>,
    result: Result<String, ListError>,
) -> bool {
    match result {
        Ok(text) => width is Some && exists|texts: Seq<Seq<char>>| #[trigger]
            cells_painted(name_cells(entries, false), texts) && text@ == grid_text(
                texts,
                GUTTER as nat,
                across,
                width->0 as nat,
            ),
        Err(error) => width is None && error == ListError::TerminalWidth,
    }
}

/// `result` is the table of `entries` as terminal text, or the error of the
/// first entry without metadata.
pub open spec fn is_long_output(
    entries: Seq<EntryView>,
    args: Args,
    now: Instant,
    result: Result<String, ListError>,
) -> bool {
    match result {
        Ok(text) => all_have_metadata(entries) && exists|texts: Seq<Seq<Seq<char>>>| #[trigger]
            rows_painted(long_rows(entries, args, now), texts) && text@ == table_text(
                row_format(),
                texts,
            ),
        Err(error) => error matches ListError::Metadata(index) && first_without_metadata(
            entries,
            index as int,
        ),
    }
}

/// The names of `entries`, one on each line.
pub fn format_output_oneline(entries: &Vec<Entry>) -> (result: Result<String, ListError>)
    ensures
        is_oneline_output(entries_of(entries@), result),
{
    let ghost all = entries_of(entries@);
    let mut output = String::new();
    let mut i: usize = 0;
    proof {
        assert(all.take(0) =~= Seq::<EntryView>::empty());
        assert(crate::paint::painting(Seq::<SpanView>::empty(), Seq::<bool>::empty())
            =~= Seq::<char>::empty());
        assert(paints(oneline_cell(all.take(0)), output@));
    }
    while i < entries.len()
        invariant
            i <= entries.len(),
            all == entries_of(entries@),
            paints(oneline_cell(all.take(i as int)), output@),
        decreases entries.len() - i,
    {
        let entry = &entries[i];
        assert(all[i as int] == entry@);
        let ghost before = output@;
        let name = file_name(entry, true).paint();
        output.append(name.as_str());
        proof {
            reveal_strlit("\n");
        }
        output.append("\n");
        proof {
            let so_far = oneline_cell(all.take(i as int));
            assert(all.take(i + 1).drop_last() =~= all.take(i as int));
            lemma_paints_concat(so_far, before, name_cell(entry@, true), name@);
            lemma_paints_bare(seq!['\n']);
            lemma_paints_concat(
                so_far + name_cell(entry@, true),
                before + name@,
                line_end(),
                seq!['\n'],
            );
            assert(output@ =~= before + name@ + seq!['\n']);
        }
        i += 1;
    }
    assert(all.take(i as int) =~= all);
    Ok(output)
}

/// The three ways to lay a listing out.
#[derive(Clone, Copy, Debug, PartialEq, Eq, Structural)]
pub enum Layout {
    /// One name on each line.
    OneLine,
    /// A table with the metadata of each entry.
    Table,
    /// Names in columns.
    Grid,
}

/// The layout that `args` asks for: one name a line where `oneline` is set,
/// else a table where `long` is set, else a grid.
pub open spec fn layout_of(args: Args) -> Layout {
    if args.oneline {
        Layout::OneLine
    } else if args.long {
        Layout::Table
    } else {
        Layout::Grid
    }
}

/// The layout that `args` asks for.
pub fn layout(args: &Args) -> (chosen: Layout)
    ensures
        chosen == layout_of(*args),
{
    if args.oneline {
        Layout::OneLine
    } else if args.long {
        Layout::Table
    } else {
        Layout::Grid
    }
}

/// `result` is the listing of `entries` in the layout that `args` asks for.
pub open spec fn is_output(
    entries: Seq<EntryView>,
    args: Args,
    width: Option<u16>,
    now: Instant,
    result: Result<String, ListError>,
) -> bool {
    match layout_of(args) {
        Layout::OneLine => is_oneline_output(entries, result),
        Layout::Table => is_long_output(entries, args, now, result),
        Layout::Grid => is_short_output(entries, args.across, width, result),
    }
}

/// The listing of `entries` in the layout that `args` asks for. `width` is
/// the width of the terminal, where it is known; `now` is the time of the
/// listing.
pub fn format_output(entries: &Vec<Entry>, args: &Args, width: Option<u16>, now: &Timestamp) -> (result:
    Result<String, ListError>)
    ensures
        is_output(entries_of(entries@), *args, width, now@, result),
{
    match layout(args) {
        Layout::OneLine => format_output_oneline(entries),
        Layout::Table => format_output_long(entries, args, now),
        Layout::Grid => format_output_short(entries, args.across, width),
    }
}

/// The line above the listing of a directory: an empty line, the
/// directory's name, a colon.
pub open spec fn header_cell(entry: EntryView) -> Seq<SpanView> {
    line_end() + name_cell(entry, false) + seq![span(seq![':'], None)]
}

/// The line above the listing of the directory `entry`, shown where more
/// than one directory is listed.
pub fn directory_header(entry: &Entry) -> (text: String)
    ensures
        paints(header_cell(entry@), text@),
{
    proof {
        reveal_strlit("\n");
        reveal_strlit(":");
    }
    let mut text = String::from_str("\n");
    let name = file_name(entry, false).paint();
    text.append(name.as_str());
    text.append(":");
    proof {
        lemma_paints_bare(seq!['\n']);
        lemma_paints_bare(seq![':']);
        lemma_paints_concat(line_end(), seq!['\n'], name_cell(entry@, false), name@);
        lemma_paints_concat(
            line_end() + name_cell(entry@, false),
            seq!['\n'] + name@,
            seq![span(seq![':'], None)],
            seq![':'],
        );
        assert(text@ =~= seq!['\n'] + name@ + seq![':']);
    }
    text
}

/// What is said of a path that does not exist.
pub open spec fn missing_text() -> Seq<char> {
    ": No such file or directory."@
}

/// The report of a path that does not exist: its name, decorated where its
/// kind is known and bare where it is not, and the message.
pub open spec fn missing_cell(entry: EntryView) -> Seq<SpanView> {
    name_cell(entry, false) + seq![span(missing_text(), None)]
}

/// The report of the path `entry`, which does not exist.
pub fn missing_path_message(entry: &Entry) -> (text: String)
    ensures
        paints(missing_cell(entry@), text@),
{
    let mut text = file_name(entry, false).paint();
    let ghost name = text@;
    text.append(": No such file or directory.");
    proof {
        lemma_paints_bare(missing_text());
        lemma_paints_concat(
            name_cell(entry@, false),
            name,
            seq![span(missing_text(), None)],
            missing_text(),
        );
    }
    text
}

} // verus!
