//! The unpacked source, closed to everybody but its owner.

use vstd::prelude::*;

verus! {

/// An entry of the unpacked tree: what it is, and its mode. The mode's lowest
/// bits are the permissions, and above them set-user-id, set-group-id and sticky.
pub struct TreeEntry {
    pub is_symlink: bool,
    pub is_dir: bool,
    pub mode: u32,
}

/// What is to be done with an entry of the unpacked tree: the permission bits
/// to set, if any, and whether to go on with its own entries.
pub struct Hardening {
    pub set_mode: Option<u32>,
    pub descend: bool,
}

/// The permission bits that an entry of the unpacked tree gets.
pub open spec fn owner_only(is_dir: bool) -> u32 {
    if is_dir {
        0o700
    } else {
        0o600
    }
}

/// What is to be done with an entry of the unpacked tree.
pub open spec fn hardening(entry: TreeEntry) -> Hardening {
    Hardening {
        set_mode: if entry.is_symlink || entry.mode & 0o7777 == owner_only(entry.is_dir) {
            None
        } else {
            Some(owner_only(entry.is_dir))
        },
        descend: entry.is_dir && !entry.is_symlink,
    }
}

/// Closes an entry of the unpacked tree to everybody but its owner: a
/// directory gets the mode `0700` and any other file `0600`, so that no
/// set-user-id, set-group-id or sticky bit stays either. A symbolic link is left
/// alone.
pub fn enforce_hardened_tree(entry: &TreeEntry) -> (r: Hardening)
    ensures
        r == hardening(*entry),
{
    if entry.is_symlink {
        return Hardening { set_mode: None, descend: false };
    }
    let wanted: u32 = if entry.is_dir {
        0o700
    } else {
        0o600
    };
    let set_mode: Option<u32> = if entry.mode & 0o7777 == wanted {
        None
    } else {
        Some(wanted)
    };
    Hardening { set_mode, descend: entry.is_dir }
}

/// A walk over the unpacked tree: the entries that are still to be visited.
/// `Path` is whatever names an entry.
pub struct TreeWalk<Path> {
    pub pending: Vec<Path>,
}

impl<Path> View for TreeWalk<Path> {
    type V = Seq<Path>;

    open spec fn view(&self) -> Seq<Path> {
        self.pending@
    }
}

/// The entries that are still to be visited after one was dealt with that has these
/// entries of its own.
pub open spec fn left_after<Path>(
    pending: Seq<Path>,
    descend: bool,
    children: Seq<Path>,
) -> Seq<Path> {
    if descend {
        pending + children
    } else {
        pending
    }
}

impl<Path> TreeWalk<Path> {
    /// A walk that starts at the root of the tree.
    pub fn new(root: Path) -> (walk: TreeWalk<Path>)
        ensures
            walk@ == seq![root],
    {
        let mut pending: Vec<Path> = Vec::new();
        pending.push(root);
        TreeWalk { pending }
    }

    /// The entry to visit next, or none where the walk is over.
    pub fn next(&mut self) -> (r: Option<Path>)
        ensures
            match r {
                Some(path) => old(self)@.len() > 0 && path == old(self)@.last() && final(self)@
                    == old(self)@.drop_last(),
                None => old(self)@.len() == 0 && final(self)@ == old(self)@,
            },
    {
        self.pending.pop()
    }

    /// Takes what a visited entry holds: its own entries are visited too, if it
    /// is to be gone on with.
    pub fn enter(&mut self, todo: &Hardening, children: Vec<Path>)
        ensures
            final(self)@ == old(self)@ + if todo.descend {
                children@
            } else {
                Seq::empty()
            },
            final(self)@ == left_after(old(self)@, todo.descend, children@),
    {
        let ghost before = self@;
        if todo.descend {
            let mut children: Vec<Path> = children;
            self.pending.append(&mut children);
        } else {
            assert(self@ =~= before + Seq::<Path>::empty());
        }
    }
}

/// The permission bits of an entry after it was dealt with.
pub open spec fn hardened_mode(entry: TreeEntry) -> u32 {
    match hardening(entry).set_mode {
        Some(mode) => mode,
        None => entry.mode,
    }
}

/// An entry that was dealt with and is no symbolic link is open to its owner
/// alone, has no special bit, and there is nothing left to do with it.
pub proof fn law_hardened_entry_is_closed(entry: TreeEntry)
    requires
        !entry.is_symlink,
    ensures
        hardened_mode(entry) & 0o7777 == owner_only(entry.is_dir),
        hardened_mode(entry) & 0o7077 == 0,
        hardening(TreeEntry { mode: hardened_mode(entry), ..entry }).set_mode is None,
{
    let mode = hardened_mode(entry);
    assert(0o700u32 & 0o7777 == 0o700) by (bit_vector);
    assert(0o600u32 & 0o7777 == 0o600) by (bit_vector);
    assert(mode & 0o7777 == 0o700 || mode & 0o7777 == 0o600 ==> mode & 0o7077 == 0) by (bit_vector);
}

/// What is found at a path when it is visited: the entry and its own entries, or
/// nothing.
pub type Disk<Path> = spec_fn(Path) -> Option<(TreeEntry, Seq<Path>)>;

/// The entries that a visit to a path adds to the walk.
pub open spec fn entered<Path>(disk: Disk<Path>, path: Path) -> Seq<Path> {
    match disk(path) {
        Some((entry, children)) => if hardening(entry).descend {
            children
        } else {
            Seq::empty()
        },
        None => Seq::empty(),
    }
}

/// The paths that a walk visits, where it is over after `limit` visits.
pub open spec fn visited<Path>(
    disk: Disk<Path>,
    pending: Seq<Path>,
    limit: nat,
) -> Option<Seq<Path>>
    decreases limit,
{
    if pending.len() == 0 {
        Some(Seq::empty())
    } else if limit == 0 {
        None
    } else {
        let path = pending.last();
        match visited(disk, pending.drop_last() + entered(disk, path), (limit - 1) as nat) {
            Some(rest) => Some(seq![path] + rest),
            None => None,
        }
    }
}

/// A path below another, with those between them: each is an entry of a
/// directory that is gone on with.
pub open spec fn is_descent<Path>(disk: Disk<Path>, chain: Seq<Path>) -> bool {
    &&& chain.len() > 0
    &&& forall|i: int|
        0 <= i < chain.len() - 1 ==> entered(disk, #[trigger] chain[i]).contains(chain[i + 1])
}

/// A walk that is over has visited everything below the paths that it started
/// from.
pub proof fn law_walk_misses_nothing<Path>(
    disk: Disk<Path>,
    pending: Seq<Path>,
    limit: nat,
    chain: Seq<Path>,
)
    requires
        visited(disk, pending, limit) is Some,
        is_descent(disk, chain),
        pending.contains(chain[0]),
    ensures
        visited(disk, pending, limit)->0.contains(chain.last()),
    decreases limit,
{
    let path = pending.last();
    let rest = pending.drop_last();
    let added = entered(disk, path);
    let after = rest + added;
    let found = visited(disk, after, (limit - 1) as nat)->0;
    let all = visited(disk, pending, limit)->0;
    assert(all == seq![path] + found);
    assert(all[0] == path);
    if chain[0] == path && chain.len() == 1 {
        assert(all.contains(chain.last()));
    } else {
        let tail = if chain[0] == path {
            chain.skip(1)
        } else {
            chain
        };
        if chain[0] == path {
            assert(added.contains(chain[1]));
            let j = choose|j: int| 0 <= j < added.len() && added[j] == chain[1];
            assert(after[rest.len() + j] == chain[1]);
            assert(tail[0] == chain[1]);
            assert forall|i: int| 0 <= i < tail.len() - 1 implies entered(
                disk,
                #[trigger] tail[i],
            ).contains(tail[i + 1]) by {
                assert(tail[i] == chain[i + 1]);
                assert(tail[i + 1] == chain[i + 1 + 1]);
            }
        } else {
            let j = choose|j: int| 0 <= j < pending.len() && pending[j] == chain[0];
            assert(rest[j] == chain[0]);
            assert(after[j] == chain[0]);
        }
        assert(tail.last() == chain.last());
        law_walk_misses_nothing(disk, after, (limit - 1) as nat, tail);
        let k = choose|k: int| 0 <= k < found.len() && found[k] == tail.last();
        assert(all[k + 1] == chain.last());
    }
}

/// A directory ends up with the mode `0700` and any other file with `0600`, whatever
/// its permissions and special bits were; one that has its mode is not touched. Only
/// directories are gone on with, and a symbolic link is left alone.
pub proof fn law_modes(entry: TreeEntry)
    ensures
        entry.is_symlink ==> hardening(entry).set_mode is None && !hardening(entry).descend,
        !entry.is_symlink && entry.is_dir ==> {
            &&& hardening(entry).descend
            &&& entry.mode & 0o7777 == 0o700 ==> hardening(entry).set_mode is None
            &&& entry.mode & 0o7777 != 0o700 ==> hardening(entry).set_mode == Some(0o700u32)
        },
        !entry.is_symlink && !entry.is_dir ==> {
            &&& !hardening(entry).descend
            &&& entry.mode & 0o7777 == 0o600 ==> hardening(entry).set_mode is None
            &&& entry.mode & 0o7777 != 0o600 ==> hardening(entry).set_mode == Some(0o600u32)
        },
{
}

/// An entry that is gone on with adds each of its own entries to those that are still
/// to be visited, and drops none of them. One that is not adds nothing.
pub proof fn law_what_is_left_to_visit<Path>(
    pending: Seq<Path>,
    children: Seq<Path>,
    path: Path,
)
    ensures
        left_after(pending, true, children).contains(path) <==> pending.contains(path)
            || children.contains(path),
        left_after(pending, true, children).len() == pending.len() + children.len(),
        left_after(pending, false, children) == pending,
{
    let all = left_after(pending, true, children);
    if pending.contains(path) {
        let i = choose|i: int| 0 <= i < pending.len() && pending[i] == path;
        assert(all[i] == path);
    }
    if children.contains(path) {
        let i = choose|i: int| 0 <= i < children.len() && children[i] == path;
        assert(all[pending.len() + i] == path);
    }
}

} // verus!
