//! The options of a listing.

use vstd::prelude::*;

verus! {

/// How the time column is written.
#[derive(Clone, Copy, Debug, PartialEq, Eq, Structural)]
pub enum TimeStyle {
    /// Day, month and time of day; day, month and year for old entries.
    Default,
    /// `YYYY-MM-DD HH:MM`.
    Iso,
    /// The age in words.
    Relative,
}

impl Default for TimeStyle {
    fn default() -> (style: TimeStyle)
        ensures
            style == TimeStyle::Default,
    {
        TimeStyle::Default
    }
}

/// The validated options of one run.
#[derive(Clone, Debug, PartialEq, Eq)]
pub struct Args {
    /// The files and directories to list.
    pub paths: Vec<String>,
    /// 0: hidden entries are left out; 1: they are listed; 2 and more: `.`
    /// and `..` are listed too.
    pub all: u8,
    /// Fill the grid across rather than downwards.
    pub across: bool,
    /// Show the metadata of each entry, as a table.
    pub long: bool,
    /// Show sizes in bytes, without a unit.
    pub bytes: bool,
    /// List directories only.
    pub only_dirs: bool,
    /// List files only.
    pub only_files: bool,
    /// Show each entry's group.
    pub group: bool,
    /// Show each entry's inode number.
    pub inode: bool,
    /// Show each entry's number of hard links.
    pub links: bool,
    /// One entry per line.
    pub oneline: bool,
    /// Leave the permission column empty.
    pub no_permissions: bool,
    /// How the time column is written.
    pub time_style: TimeStyle,
    /// Use the time of the last modification.
    pub modified: bool,
    /// Use the time of the last access.
    pub accessed: bool,
    /// Use the time of creation.
    pub created: bool,
    /// Use the time of the last change of the metadata.
    pub changed: bool,
    /// List each entry's extended attributes.
    pub extended: bool,
}

impl Default for Args {
    /// No path and every option switched off.
    fn default() -> (args: Args)
        ensures
            args.paths@.len() == 0,
            args.all == 0,
            !args.across && !args.long && !args.bytes && !args.only_dirs && !args.only_files,
            !args.group && !args.inode && !args.links && !args.oneline && !args.no_permissions,
            args.time_style == TimeStyle::Default,
            !args.modified && !args.accessed && !args.created && !args.changed && !args.extended,
    {
        Args {
            paths: Vec::new(),
            all: 0,
            across: false,
            long: false,
            bytes: false,
            only_dirs: false,
            only_files: false,
            group: false,
            inode: false,
            links: false,
            oneline: false,
            no_permissions: false,
            time_style: TimeStyle::Default,
            modified: false,
            accessed: false,
            created: false,
            changed: false,
            extended: false,
        }
    }
}

} // verus!
