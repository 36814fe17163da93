//! The decisions of the directory walk: what is done with each entry of a
//! listing, and which directories are still to be listed.
//!
//! The walk itself reads directories and files, which is the caller's part:
//! it asks for the next directory, lists it, and hands the listing in.

use vstd::prelude::*;
use vstd::string::*;
use crate::filter::{glob_matches, portable_path, NameFilter};

verus! {

/// What the caller found an entry of a directory to be.
#[derive(Debug, Clone, Copy, PartialEq, Eq, Structural)]
pub enum EntryKind {
    /// A directory.
    Directory,
    /// A regular file, or a link that leads to one.
    File,
    /// Anything else, such as a link that leads nowhere.
    Other,
    /// An entry that could not be read.
    Unreadable,
}

/// One entry of a directory listing.
#[derive(Debug)]
pub struct Entry {
    /// The entry's path from the search root.
    pub path: String,
    /// What the entry is.
    pub kind: EntryKind,
}

/// What the walk does with an entry.
#[derive(Debug, Clone, Copy, PartialEq, Eq, Structural)]
pub enum WalkAction {
    /// List this directory later.
    Descend,
    /// Search this file.
    Search,
    /// Pass the entry over.
    Skip,
}

/// The action for an entry of a kind, given the name filter's verdict on it.
pub open spec fn action_for(kind: EntryKind, accepted: bool) -> WalkAction {
    match kind {
        EntryKind::Directory => WalkAction::Descend,
        EntryKind::File => if accepted {
            WalkAction::Search
        } else {
            WalkAction::Skip
        },
        EntryKind::Other => WalkAction::Skip,
        EntryKind::Unreadable => WalkAction::Skip,
    }
}

/// Decides on one entry. An entry that could not be read is passed over, and
/// never stops the walk.
pub fn decide(kind: EntryKind, accepted: bool) -> (action: WalkAction)
    ensures
        action == action_for(kind, accepted),
{
    match kind {
        EntryKind::Directory => WalkAction::Descend,
        EntryKind::File => if accepted {
            WalkAction::Search
        } else {
            WalkAction::Skip
        },
        EntryKind::Other => WalkAction::Skip,
        EntryKind::Unreadable => WalkAction::Skip,
    }
}

/// The action agrees with the entry alone: with its kind, and for a file with
/// what the glob says of its path.
pub open spec fn action_fits(glob: Seq<char>, entry: Entry, action: WalkAction) -> bool {
    &&& exists|accepted: bool| action == action_for(entry.kind, accepted)
    &&& entry.kind == EntryKind::File && portable_path(entry.path@) ==> action == action_for(
        entry.kind,
        glob_matches(glob, entry.path@),
    )
}

/// The paths of the directories among the first `count` entries, in order.
pub open spec fn directories_in(entries: Seq<Entry>, count: int) -> Seq<Seq<char>>
    decreases count,
{
    if count <= 0 || count > entries.len() {
        Seq::empty()
    } else if entries[count - 1].kind == EntryKind::Directory {
        directories_in(entries, count - 1).push(entries[count - 1].path@)
    } else {
        directories_in(entries, count - 1)
    }
}

/// The paths held in a run of strings.
pub open spec fn paths_of(paths: Seq<String>) -> Seq<Seq<char>> {
    Seq::new(paths.len(), |i: int| paths[i]@)
}

/// The state of a walk: the directories that are still to be listed. Its view
/// is their paths; the last one is listed next, so the walk goes depth first.
pub struct Walker {
    pending: Vec<String>,
}

impl View for Walker {
    type V = Seq<Seq<char>>;

    closed spec fn view(&self) -> Seq<Seq<char>> {
        paths_of(self.pending@)
    }
}

impl Walker {
    /// A walk that has its root still to list.
    pub fn new(root: &str) -> (walker: Walker)
        ensures
            walker@ == seq![root@],
    {
        let mut pending: Vec<String> = Vec::new();
        pending.push(root.to_owned());
        proof {
            assert(paths_of(pending@) =~= seq![root@]);
        }
        Walker { pending }
    }

    /// Takes the directory that is to be listed next, or says that the walk is
    /// over.
    pub fn next_directory(&mut self) -> (next: Option<String>)
        ensures
            old(self)@.len() == 0 ==> next is None && final(self)@ == old(self)@,
            old(self)@.len() > 0 ==> (next matches Some(path) && path@ == old(self)@.last()
                && final(self)@ == old(self)@.drop_last()),
    {
        let next = self.pending.pop();
        proof {
            if old(self).pending@.len() > 0 {
                assert(paths_of(self.pending@) =~= paths_of(old(self).pending@).drop_last());
            }
        }
        next
    }

    /// Takes in the listing of one directory. Each entry gets its action,
    /// whatever the other entries are, and the directories among them join
    /// those that are still to be listed.
    pub fn take_listing(&mut self, listing: &Vec<Entry>, filter: &NameFilter) -> (actions: Vec<WalkAction>)
        ensures
            actions.len() == listing.len(),
            forall|i: int| 0 <= i < listing.len() ==> action_fits(filter@, listing[i], #[trigger] actions[i]),
            final(self)@ == old(self)@ + directories_in(listing@, listing.len() as int),
    {
        let mut actions: Vec<WalkAction> = Vec::new();
        let mut i: usize = 0;
        while i < listing.len()
            invariant
                i <= listing.len(),
                actions.len() == i,
                forall|k: int| 0 <= k < i ==> action_fits(filter@, listing[k], #[trigger] actions[k]),
                self@ == old(self)@ + directories_in(listing@, i as int),
            decreases listing.len() - i,
        {
            let entry = &listing[i];
            let accepted = match entry.kind {
                EntryKind::File => filter.matches(entry.path.as_str()),
                _ => false,
            };
            let action = decide(entry.kind, accepted);
            if action == WalkAction::Descend {
                let ghost before = self.pending@;
                self.pending.push(entry.path.clone());
                proof {
                    assert(paths_of(self.pending@) =~= paths_of(before).push(entry.path@));
                    assert(self@ =~= old(self)@ + directories_in(listing@, i + 1));
                }
            }
            actions.push(action);
            i = i + 1;
        }
        actions
    }
}

} // verus!
