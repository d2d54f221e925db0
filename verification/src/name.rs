//! The name column: an entry's name with the decoration of its type, and the
//! names of users and groups.

use crate::entry::{dot, dot_dot, text_of, Entry, EntryView, FileKind, LinkTargetView};
use crate::paint::{colour_on, painting, piece};
use crate::style::{plain_text, span, Cell, SpanView, Tint};
use crate::text::{decimal, decimal_string};
use vstd::prelude::*;

verus! {

/// The arrow between a link's name and its target.
pub open spec fn arrow() -> Seq<char> {
    seq![' ', '-', '>', ' ']
}

/// A pseudo-entry: its name in the colour of directories, and a slash.
pub open spec fn pseudo_cell(name: Seq<char>) -> Seq<SpanView> {
    seq![span(name, Some(Tint::Blue)), span(seq!['/'], None)]
}

/// A symbolic link in a table: name, arrow and target. A link whose target
/// exists is cyan throughout; a dangling one has arrow and target in red.
pub open spec fn link_cell(name: Seq<char>, target: LinkTargetView) -> Seq<SpanView> {
    let tint = if target.exists {
        Tint::Cyan
    } else {
        Tint::Red
    };
    seq![span(name, Some(Tint::Cyan)), span(arrow(), Some(tint)), span(target.path, Some(tint))]
}

/// The name of an entry of kind `kind`, decorated.
pub open spec fn kind_cell(
    name: Seq<char>,
    kind: FileKind,
    target: Option<LinkTargetView>,
    long: bool,
) -> Seq<SpanView> {
    match kind {
        FileKind::Symlink => if long {
            match target {
                Some(target) => link_cell(name, target),
                None => seq![span(name, None)],
            }
        } else {
            seq![span(name, Some(Tint::Cyan)), span(seq!['@'], None)]
        },
        FileKind::Directory => seq![span(name, Some(Tint::Blue)), span(seq!['/'], None)],
        _ => seq![span(name, None)],
    }
}

/// The name cell of an entry: `long` in a table and in a flat list, short
/// in a grid. The pseudo-entries are shown without a look at their
/// metadata; an entry without metadata is shown by its bare name.
pub open spec fn name_cell(entry: EntryView, long: bool) -> Seq<SpanView> {
    if entry.is_pseudo() {
        pseudo_cell(entry.name)
    } else {
        match entry.metadata {
            Some(md) => kind_cell(entry.name, md.kind, entry.target, long),
            None => seq![span(entry.name, None)],
        }
    }
}

/// The name under which the user or group `id` is shown: the name that the
/// lookup found, or the number itself.
pub open spec fn id_label(id: u32, found: Option<Seq<char>>) -> Seq<char> {
    match found {
        Some(name) => name,
        None => decimal(id as nat),
    }
}

/// The owner column: the owner's label in bright yellow.
pub open spec fn user_cell(uid: u32, found: Option<Seq<char>>) -> Seq<SpanView> {
    seq![span(id_label(uid, found), Some(Tint::BrightYellow))]
}

/// The group column: the group's label in yellow.
pub open spec fn group_cell(gid: u32, found: Option<Seq<char>>) -> Seq<SpanView> {
    seq![span(id_label(gid, found), Some(Tint::Yellow))]
}

/// Whether `entry` is one of the pseudo-entries `.` and `..`.
pub fn is_pseudo_entry(entry: &Entry) -> (pseudo: bool)
    ensures
        pseudo == entry@.is_pseudo(),
{
    proof {
        reveal_strlit(".");
        reveal_strlit("..");
        assert("."@ =~= dot());
        assert(".."@ =~= dot_dot());
    }
    entry.name == String::from_str(".") || entry.name == String::from_str("..")
}

/// The decorated name of `entry`; its bare name where its kind is not
/// known.
pub fn file_name(entry: &Entry, long: bool) -> (cell: Cell)
    ensures
        cell@ == name_cell(entry@, long),
{
    proof {
        reveal_strlit("/");
        reveal_strlit("@");
        reveal_strlit(" -> ");
        assert("/"@ =~= seq!['/']);
        assert("@"@ =~= seq!['@']);
        assert(" -> "@ =~= arrow());
    }
    let name = entry.name.as_str();
    if is_pseudo_entry(entry) {
        let mut cell = Cell::of(name, Some(Tint::Blue));
        cell.push("/", None);
        assert(cell@ =~= name_cell(entry@, long));
        return cell;
    }
    let kind = match &entry.metadata {
        Some(md) => md.kind,
        None => {
            return Cell::of(name, None);
        },
    };
    match kind {
        FileKind::Symlink => {
            if long {
                match &entry.target {
                    Some(target) => {
                        let tint = if target.exists {
                            Tint::Cyan
                        } else {
                            Tint::Red
                        };
                        let mut cell = Cell::of(name, Some(Tint::Cyan));
                        cell.push(" -> ", Some(tint));
                        cell.push(target.path.as_str(), Some(tint));
                        assert(cell@ =~= name_cell(entry@, long));
                        cell
                    },
                    None => Cell::of(name, None),
                }
            } else {
                let mut cell = Cell::of(name, Some(Tint::Cyan));
                cell.push("@", None);
                assert(cell@ =~= name_cell(entry@, long));
                cell
            }
        },
        FileKind::Directory => {
            let mut cell = Cell::of(name, Some(Tint::Blue));
            cell.push("/", None);
            assert(cell@ =~= name_cell(entry@, long));
            cell
        },
        _ => Cell::of(name, None),
    }
}

/// The owner column: `found` is what the lookup of `uid` gave.
pub fn user_name(uid: u32, found: &Option<String>) -> (cell: Cell)
    ensures
        cell@ == user_cell(uid, text_of(*found)),
{
    match found {
        Some(name) => Cell::of(name.as_str(), Some(Tint::BrightYellow)),
        None => Cell::of(decimal_string(uid as u64).as_str(), Some(Tint::BrightYellow)),
    }
}

/// The group column: `found` is what the lookup of `gid` gave.
pub fn group_name(gid: u32, found: &Option<String>) -> (cell: Cell)
    ensures
        cell@ == group_cell(gid, text_of(*found)),
{
    match found {
        Some(name) => Cell::of(name.as_str(), Some(Tint::Yellow)),
        None => Cell::of(decimal_string(gid as u64).as_str(), Some(Tint::Yellow)),
    }
}

/// A link to an existing target and a dangling link show the same text,
/// `name -> target`, and differ in their colours alone.
pub proof fn lemma_link_shape(name: Seq<char>, path: Seq<char>)
    ensures
        plain_text(link_cell(name, LinkTargetView { path, exists: true })) == name + arrow() + path,
        plain_text(link_cell(name, LinkTargetView { path, exists: false })) == name + arrow()
            + path,
        link_cell(name, LinkTargetView { path, exists: true }) != link_cell(
            name,
            LinkTargetView { path, exists: false },
        ),
{
    let live = link_cell(name, LinkTargetView { path, exists: true });
    let dead = link_cell(name, LinkTargetView { path, exists: false });
    lemma_plain_text_of_three(live);
    lemma_plain_text_of_three(dead);
    assert(live[1].tint != dead[1].tint);
}

/// The terminal text of a cell of three spans is the three pieces in a
/// row.
proof fn lemma_painting_of_three(cell: Seq<SpanView>, lit: Seq<bool>)
    requires
        cell.len() == 3,
        lit.len() == 3,
    ensures
        painting(cell, lit) == piece(cell[0], lit[0]) + piece(cell[1], lit[1]) + piece(
            cell[2],
            lit[2],
        ),
{
    let two = cell.drop_last();
    let one = two.drop_last();
    let two_lit = lit.drop_last();
    let one_lit = two_lit.drop_last();
    assert(one.drop_last() =~= Seq::<SpanView>::empty());
    assert(painting(one.drop_last(), one_lit.drop_last()) =~= Seq::<char>::empty());
    assert(painting(one, one_lit) =~= piece(cell[0], lit[0]));
    assert(painting(two, two_lit) =~= piece(cell[0], lit[0]) + piece(cell[1], lit[1]));
}

/// A link to an existing target and a dangling link differ as terminal
/// text too, once the arrow or the target comes out coloured.
pub proof fn lemma_links_differ_as_text(name: Seq<char>, path: Seq<char>, lit: Seq<bool>)
    requires
        lit.len() == 3,
        lit[1] || lit[2],
    ensures
        painting(link_cell(name, LinkTargetView { path, exists: true }), lit) != painting(
            link_cell(name, LinkTargetView { path, exists: false }),
            lit,
        ),
{
    let live = link_cell(name, LinkTargetView { path, exists: true });
    let dead = link_cell(name, LinkTargetView { path, exists: false });
    lemma_painting_of_three(live, lit);
    lemma_painting_of_three(dead, lit);
    let head = piece(live[0], lit[0]);
    assert(head == piece(dead[0], lit[0]));
    let shown_live = painting(live, lit);
    let shown_dead = painting(dead, lit);
    assert(colour_on(Tint::Cyan)[3] == '6');
    assert(colour_on(Tint::Red)[3] == '1');
    if lit[1] {
        let at = head.len() as int + 3;
        assert(piece(live[1], true)[3] == '6');
        assert(piece(dead[1], true)[3] == '1');
        assert(shown_live[at] == '6');
        assert(shown_dead[at] == '1');
    } else {
        let at = head.len() as int + arrow().len() as int + 3;
        assert(piece(live[1], false) == arrow());
        assert(piece(dead[1], false) == arrow());
        assert(piece(live[2], true)[3] == '6');
        assert(piece(dead[2], true)[3] == '1');
        assert(shown_live[at] == '6');
        assert(shown_dead[at] == '1');
    }
}

/// The text of a cell of three spans is the three texts in a row.
proof fn lemma_plain_text_of_three(cell: Seq<SpanView>)
    requires
        cell.len() == 3,
    ensures
        plain_text(cell) == cell[0].text + cell[1].text + cell[2].text,
{
    let two = cell.drop_last();
    let one = two.drop_last();
    assert(one.drop_last() =~= Seq::<SpanView>::empty());
    assert(plain_text(one.drop_last()) =~= Seq::<char>::empty());
    assert(plain_text(one) =~= cell[0].text);
    assert(plain_text(two) =~= cell[0].text + cell[1].text);
}

} // verus!
