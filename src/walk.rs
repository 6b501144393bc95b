//! Directory size aggregation as an explicit work stack. The caller reads each
//! directory that the walk asks for, with metadata taken without following
//! symbolic links, and hands the listing back.
use vstd::prelude::*;

verus! {

/// What an entry is, as its own metadata reports it (links are not followed).
#[derive(Clone, Copy, Debug, PartialEq, Eq, Structural)]
pub enum EntryKind {
    Directory,
    Symlink,
    File,
}

/// One entry of a directory listing, as the caller could read it.
pub enum Probe<P> {
    /// The entry, or its metadata, could not be read.
    Unreadable,
    /// The entry's path, its kind and its own length in bytes.
    Found { path: P, kind: EntryKind, len: u64 },
}

/// The state of a size walk: the bytes counted so far and the directories
/// still to be read, the next one last.
pub struct SizeWalk<P> {
    pub total: u64,
    pub pending: Vec<P>,
}

/// The directories that a listing schedules, in the order they are pushed:
/// the listing is absorbed from its last entry to its first, so the first
/// directory of the listing ends on top of the stack.
pub open spec fn scheduled<P>(s: Seq<Probe<P>>) -> Seq<P>
    decreases s.len(),
{
    if s.len() == 0 {
        Seq::empty()
    } else {
        let rest = scheduled(s.drop_first());
        match s[0] {
            Probe::Found { path, kind: EntryKind::Directory, .. } => rest.push(path),
            _ => rest,
        }
    }
}

/// The bytes that a listing adds by itself: the own length of every readable
/// entry that is not a directory.
pub open spec fn counted<P>(s: Seq<Probe<P>>) -> nat
    decreases s.len(),
{
    if s.len() == 0 {
        0
    } else {
        let here: nat = match s[0] {
            Probe::Found { kind: EntryKind::Directory, .. } => 0,
            Probe::Found { len, .. } => len as nat,
            Probe::Unreadable => 0,
        };
        here + counted(s.drop_first())
    }
}

/// `a + b`, or the largest `u64` where that sum does not fit.
pub open spec fn saturated(a: nat, b: nat) -> nat {
    if a + b > u64::MAX {
        u64::MAX as nat
    } else {
        a + b
    }
}

/// A symbolic link is never followed: a listing with a link in it schedules
/// exactly the directories that it schedules without the link, and counts the
/// link's own length and nothing more.
pub proof fn lemma_links_not_followed<P>(s: Seq<Probe<P>>, i: int)
    requires
        0 <= i < s.len(),
        s[i] matches Probe::Found { kind: EntryKind::Symlink, .. },
    ensures
        scheduled(s) == scheduled(s.remove(i)),
        counted(s) == counted(s.remove(i)) + (s[i]->len as nat),
    decreases i,
{
    if i > 0 {
        lemma_links_not_followed(s.drop_first(), i - 1);
        assert(s.remove(i).drop_first() =~= s.drop_first().remove(i - 1));
        assert(s.remove(i)[0] == s[0]);
    } else {
        assert(s.remove(0) =~= s.drop_first());
    }
}

impl<P> SizeWalk<P> {
    /// A walk that will read `root` first and has counted nothing yet.
    pub fn new(root: P) -> (r: Self)
        ensures
            r.total == 0,
            r.pending@ == seq![root],
    {
        let mut pending = Vec::new();
        pending.push(root);
        SizeWalk { total: 0, pending }
    }

    /// The next directory to read, taken off the stack; `None` once the walk is
    /// done, and then `total` is the size of the tree.
    pub fn next_dir(&mut self) -> (r: Option<P>)
        ensures
            final(self).total == old(self).total,
            old(self).pending@.len() == 0 ==> r is None && final(self).pending@ == old(self).pending@,
            old(self).pending@.len() > 0 ==> r == Some(old(self).pending@.last())
                && final(self).pending@ == old(self).pending@.drop_last(),
    {
        self.pending.pop()
    }

    /// Takes in the listing of a directory that `next_dir` handed out: each
    /// directory in it is scheduled, every other readable entry adds its own
    /// length (a symbolic link counts as the link itself, never its target),
    /// and unreadable entries add nothing. `None` stands for a directory that
    /// could not be read, which adds nothing. A total past `u64::MAX` saturates.
    pub fn absorb(&mut self, listing: Option<Vec<Probe<P>>>)
        ensures
            listing is None ==> *final(self) == *old(self),
            listing is Some ==> final(self).pending@ == old(self).pending@ + scheduled(listing->0@),
            listing is Some ==> final(self).total == saturated(
                old(self).total as nat,
                counted(listing->0@),
            ),
    {
        if let Some(mut entries) = listing {
            let ghost all = entries@;
            let ghost start = self.pending@;
            let ghost start_total = self.total as nat;
            while entries.len() > 0
                invariant
                    entries@ == all.take(entries@.len() as int),
                    entries@.len() <= all.len(),
                    self.pending@ == start + scheduled(all.skip(entries@.len() as int)),
                    self.total == saturated(start_total, counted(all.skip(entries@.len() as int))),
                decreases entries@.len(),
            {
                let ghost m = entries@.len() as int;
                let e = entries.pop().unwrap();
                proof {
                    assert(all.skip(m - 1).drop_first() =~= all.skip(m));
                    assert(all.skip(m - 1)[0] == all[m - 1]);
                    assert(entries@ =~= all.take(m - 1));
                }
                match e {
                    Probe::Found { path, kind: EntryKind::Directory, .. } => {
                        self.pending.push(path);
                    },
                    Probe::Found { len, .. } => {
                        self.total = self.total.saturating_add(len);
                    },
                    Probe::Unreadable => {},
                }
            }
            assert(all.skip(0) =~= all);
        }
    }
}

} // verus!
