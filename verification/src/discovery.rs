//! Which entries of a directory tree are source files, and which
//! directories are worth reading.
//!
//! The caller reads the directories; this module decides. A walk begins at
//! a root, hands out one directory at a time, and takes in what the caller
//! found there. It goes depth first: the entries of a directory are looked
//! at in the order in which the caller lists them, and a directory among
//! them is read, and gone through, before the entries behind it. The files
//! come in the order in which the walk meets them, which is as stable as
//! the listings of the file system are.

use vstd::prelude::*;
use crate::text::{chars_of, same_text};

verus! {

/// An entry of a directory, as the file system reports it.
#[derive(Debug)]
pub struct Entry {
    /// The path of the entry, from the root of the walk.
    pub path: String,
    /// The last part of the path; empty where it cannot be read as text.
    pub name: String,
    /// What follows the last dot of the name, if the name has such a part.
    pub extension: Option<String>,
    /// Whether the entry is a directory.
    pub is_dir: bool,
}

/// What is done with an entry.
#[derive(Clone, Copy, Debug, PartialEq, Eq, Structural)]
pub enum EntryAction {
    /// The entry is left alone.
    Skip,
    /// The entry is a directory that is read in its turn.
    Descend,
    /// The entry is a file of the list.
    Collect,
}

/// A hidden name begins with a dot.
pub open spec fn is_hidden(name: Seq<char>) -> bool {
    name.len() > 0 && name[0] == '.'
}

/// The texts of a list of names.
pub open spec fn texts_of(names: Seq<&str>) -> Seq<Seq<char>> {
    names.map_values(|name: &str| name@)
}

/// What is done with an entry. A directory is skipped if its name is
/// hidden or is one of `excluded`, and read otherwise. Another entry is a
/// file of the list if its extension is one of `extensions`, letter for
/// letter, and skipped otherwise.
pub open spec fn action_for(
    name: Seq<char>,
    extension: Option<Seq<char>>,
    is_dir: bool,
    extensions: Seq<Seq<char>>,
    excluded: Seq<Seq<char>>,
) -> EntryAction {
    if is_dir {
        if is_hidden(name) || excluded.contains(name) {
            EntryAction::Skip
        } else {
            EntryAction::Descend
        }
    } else {
        match extension {
            Some(ext) => if extensions.contains(ext) {
                EntryAction::Collect
            } else {
                EntryAction::Skip
            },
            None => EntryAction::Skip,
        }
    }
}

impl Entry {
    /// What is done with this entry.
    pub open spec fn action(&self, extensions: Seq<Seq<char>>, excluded: Seq<Seq<char>>)
        -> EntryAction {
        action_for(
            self.name@,
            match self.extension {
                Some(ext) => Some(ext@),
                None => None,
            },
            self.is_dir,
            extensions,
            excluded,
        )
    }
}

/// Tells whether `name` is one of `names`.
pub fn is_listed(name: &str, names: &Vec<&str>) -> (listed: bool)
    ensures
        listed == texts_of(names@).contains(name@),
{
    let mut i: usize = 0;
    while i < names.len()
        invariant
            i <= names.len(),
            forall|j: int| 0 <= j < i ==> texts_of(names@)[j] != name@,
        decreases names.len() - i,
    {
        if same_text(names[i], name) {
            assert(texts_of(names@)[i as int] == name@);
            return true;
        }
        i += 1;
    }
    false
}

/// Decides what is done with an entry of a directory.
pub fn classify_entry(entry: &Entry, extensions: &Vec<&str>, excluded_dirs: &Vec<&str>) -> (action:
    EntryAction)
    ensures
        action == entry.action(texts_of(extensions@), texts_of(excluded_dirs@)),
{
    if entry.is_dir {
        let name = chars_of(entry.name.as_str());
        let hidden = name.len() > 0 && name[0] == '.';
        if hidden || is_listed(entry.name.as_str(), excluded_dirs) {
            EntryAction::Skip
        } else {
            EntryAction::Descend
        }
    } else {
        match &entry.extension {
            Some(ext) => {
                if is_listed(ext.as_str(), extensions) {
                    EntryAction::Collect
                } else {
                    EntryAction::Skip
                }
            },
            None => EntryAction::Skip,
        }
    }
}

/// The paths of the entries that are files of the list, in their order.
pub open spec fn collected(
    entries: Seq<Entry>,
    extensions: Seq<Seq<char>>,
    excluded: Seq<Seq<char>>,
) -> Seq<Seq<char>>
    decreases entries.len(),
{
    if entries.len() == 0 {
        Seq::empty()
    } else {
        let before = collected(entries.drop_last(), extensions, excluded);
        if entries.last().action(extensions, excluded) == EntryAction::Collect {
            before.push(entries.last().path@)
        } else {
            before
        }
    }
}

/// The place of the first entry that is a directory to read; the number of
/// entries where there is none.
pub open spec fn first_descent(
    entries: Seq<Entry>,
    extensions: Seq<Seq<char>>,
    excluded: Seq<Seq<char>>,
) -> int
    decreases entries.len(),
{
    if entries.len() == 0 || entries[0].action(extensions, excluded) == EntryAction::Descend {
        0
    } else {
        1 + first_descent(entries.drop_first(), extensions, excluded)
    }
}

/// The first directory to read is where no entry before it is one.
proof fn lemma_first_descent(
    entries: Seq<Entry>,
    extensions: Seq<Seq<char>>,
    excluded: Seq<Seq<char>>,
    at: int,
)
    requires
        0 <= at <= entries.len(),
        forall|j: int|
            0 <= j < at ==> (#[trigger] entries[j]).action(extensions, excluded)
                != EntryAction::Descend,
        at < entries.len() ==> entries[at].action(extensions, excluded) == EntryAction::Descend,
    ensures
        first_descent(entries, extensions, excluded) == at,
    decreases entries.len(),
{
    if at > 0 {
        let rest = entries.drop_first();
        assert(entries[0].action(extensions, excluded) != EntryAction::Descend);
        assert forall|j: int| 0 <= j < at - 1 implies (#[trigger] rest[j]).action(
            extensions,
            excluded,
        ) != EntryAction::Descend by {
            assert(rest[j] == entries[j + 1]);
        }
        lemma_first_descent(rest, extensions, excluded, at - 1);
    }
}

/// The texts of a list of paths.
pub open spec fn paths_of(paths: Seq<String>) -> Seq<Seq<char>> {
    paths.map_values(|path: String| path@)
}

/// The entries of one directory, and how many of them have been seen.
struct Frame {
    entries: Vec<Entry>,
    seen: usize,
}

impl Frame {
    #[verifier::type_invariant]
    spec fn wf(&self) -> bool {
        self.seen <= self.entries@.len()
    }

    /// The entries that have not been seen.
    spec fn rest(&self) -> Seq<Entry> {
        self.entries@.skip(self.seen as int)
    }
}

/// The entries that have not been seen, those of the directory that was
/// read last before those of the directories above it.
spec fn agenda_of(frames: Seq<Frame>) -> Seq<Entry>
    decreases frames.len(),
{
    if frames.len() == 0 {
        Seq::empty()
    } else {
        frames.last().rest() + agenda_of(frames.drop_last())
    }
}

/// A walk through a directory tree, depth first: the directory to begin
/// with, the entries that wait to be looked at, and the files found so far.
pub struct Walk {
    root: Option<String>,
    frames: Vec<Frame>,
    files: Vec<String>,
}

impl Walk {
    /// The root, as long as it has not been handed out.
    pub closed spec fn root(&self) -> Option<Seq<char>> {
        match self.root {
            Some(path) => Some(path@),
            None => None,
        }
    }

    /// The entries that wait to be looked at, in the order in which the
    /// walk comes to them.
    pub closed spec fn agenda(&self) -> Seq<Entry> {
        agenda_of(self.frames@)
    }

    /// The paths of the files found so far.
    pub closed spec fn found(&self) -> Seq<Seq<char>> {
        paths_of(self.files@)
    }

    /// A walk that begins at `root`. Where the root is no directory there
    /// is nothing to read.
    pub fn begin(root: String, root_is_dir: bool) -> (walk: Walk)
        ensures
            walk.root() == if root_is_dir {
                Some(root@)
            } else {
                None::<Seq<char>>
            },
            walk.agenda().len() == 0,
            walk.found().len() == 0,
    {
        let walk = Walk {
            root: if root_is_dir {
                Some(root)
            } else {
                None
            },
            frames: Vec::new(),
            files: Vec::new(),
        };
        assert(walk.found() =~= Seq::<Seq<char>>::empty());
        walk
    }

    /// Takes in the entries of the directory that was handed out last: the
    /// walk looks at them before it goes on with what waited already.
    pub fn take_entries(&mut self, entries: Vec<Entry>)
        ensures
            final(self).root() == old(self).root(),
            final(self).agenda() == entries@ + old(self).agenda(),
            final(self).found() == old(self).found(),
    {
        let ghost before = self.frames@;
        let frame = Frame { entries, seen: 0 };
        assert(frame.rest() =~= entries@);
        self.frames.push(frame);
        assert(self.frames@.drop_last() =~= before);
    }

    /// The directory to read next, if there is one. The root comes first.
    /// After it the walk looks at the entries that wait, in their order, up
    /// to the first directory that is to be read, and hands that out; the
    /// files with an accepted extension that it passes join the list. When
    /// no directory is left, all that waited has been looked at.
    pub fn next_directory(&mut self, extensions: &Vec<&str>, excluded_dirs: &Vec<&str>) -> (next:
        Option<String>)
        ensures
            final(self).root() is None,
            match old(self).root() {
                Some(path) => {
                    &&& next matches Some(first)
                    &&& first@ == path
                    &&& final(self).agenda() == old(self).agenda()
                    &&& final(self).found() == old(self).found()
                },
                None => {
                    let agenda = old(self).agenda();
                    let at = first_descent(
                        agenda,
                        texts_of(extensions@),
                        texts_of(excluded_dirs@),
                    );
                    &&& final(self).found() == old(self).found() + collected(
                        agenda.take(at),
                        texts_of(extensions@),
                        texts_of(excluded_dirs@),
                    )
                    &&& at < agenda.len() ==> {
                        &&& next matches Some(path)
                        &&& path@ == agenda[at].path@
                        &&& final(self).agenda() == agenda.skip(at + 1)
                    }
                    &&& at >= agenda.len() ==> next is None && final(self).agenda().len() == 0
                },
            },
    {
        if self.root.is_some() {
            return self.root.take();
        }
        let ghost accepted = texts_of(extensions@);
        let ghost left_out = texts_of(excluded_dirs@);
        let ghost agenda = self.agenda();
        let ghost found = self.found();
        let ghost mut passed: int = 0;
        proof {
            assert(agenda.take(0) =~= Seq::<Entry>::empty());
            assert(found + Seq::<Seq<char>>::empty() =~= found);
            assert(agenda.skip(0) =~= agenda);
        }
        loop
            invariant
                self.root is None,
                old(self).root() is None,
                agenda == old(self).agenda(),
                found == old(self).found(),
                accepted == texts_of(extensions@),
                left_out == texts_of(excluded_dirs@),
                0 <= passed <= agenda.len(),
                forall|j: int|
                    0 <= j < passed ==> (#[trigger] agenda[j]).action(accepted, left_out)
                        != EntryAction::Descend,
                agenda_of(self.frames@) == agenda.skip(passed),
                paths_of(self.files@) == found + collected(
                    agenda.take(passed),
                    accepted,
                    left_out,
                ),
            decreases self.frames@.len(),
        {
            let ghost below = self.frames@.drop_last();
            let mut frame = match self.frames.pop() {
                Some(frame) => frame,
                None => {
                    proof {
                        assert(agenda.skip(passed).len() == 0);
                        lemma_first_descent(agenda, accepted, left_out, passed);
                        assert(agenda.take(passed) =~= agenda);
                    }
                    return None;
                },
            };
            proof {
                use_type_invariant(&frame);
                assert(self.frames@ =~= below);
            }
            while frame.seen < frame.entries.len()
                invariant
                    self.root is None,
                    old(self).root() is None,
                    agenda == old(self).agenda(),
                    found == old(self).found(),
                    self.frames@ == below,
                    frame.seen <= frame.entries@.len(),
                    accepted == texts_of(extensions@),
                    left_out == texts_of(excluded_dirs@),
                    0 <= passed <= agenda.len(),
                    forall|j: int|
                        0 <= j < passed ==> (#[trigger] agenda[j]).action(accepted, left_out)
                            != EntryAction::Descend,
                    frame.rest() + agenda_of(below) == agenda.skip(passed),
                    paths_of(self.files@) == found + collected(
                        agenda.take(passed),
                        accepted,
                        left_out,
                    ),
                decreases frame.entries@.len() - frame.seen,
            {
                let action = classify_entry(&frame.entries[frame.seen], extensions, excluded_dirs);
                let path = frame.entries[frame.seen].path.clone();
                let ghost entry = frame.entries@[frame.seen as int];
                let ghost rest_before = frame.rest();
                let ghost files_before = paths_of(self.files@);
                proof {
                    assert(rest_before[0] == entry);
                    assert((rest_before + agenda_of(below))[0] == entry);
                    assert(agenda.skip(passed).len() > 0);
                    assert(agenda.skip(passed)[0] == entry);
                    assert(agenda[passed] == entry);
                    assert(agenda.take(passed + 1).last() == entry);
                    assert(agenda.take(passed + 1).drop_last() =~= agenda.take(passed));
                }
                frame.seen += 1;
                proof {
                    assert(frame.rest() =~= rest_before.skip(1));
                    assert((rest_before + agenda_of(below)).skip(1) =~= rest_before.skip(1)
                        + agenda_of(below));
                    assert(agenda.skip(passed).skip(1) =~= agenda.skip(passed + 1));
                }
                match action {
                    EntryAction::Descend => {
                        self.frames.push(frame);
                        proof {
                            lemma_first_descent(agenda, accepted, left_out, passed);
                            assert(self.frames@.drop_last() =~= below);
                        }
                        return Some(path);
                    },
                    EntryAction::Collect => {
                        self.files.push(path);
                        proof {
                            assert(paths_of(self.files@) =~= files_before.push(entry.path@));
                            passed = passed + 1;
                        }
                    },
                    EntryAction::Skip => {
                        proof {
                            passed = passed + 1;
                        }
                    },
                }
            }
            proof {
                assert(frame.rest() =~= Seq::<Entry>::empty());
                assert(frame.rest() + agenda_of(below) =~= agenda_of(below));
            }
        }
    }

    /// The files that the walk found.
    pub fn into_files(self) -> (files: Vec<String>)
        ensures
            paths_of(files@) == self.found(),
    {
        self.files
    }
}

} // verus!
