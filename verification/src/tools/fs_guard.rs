//! One lock for each file, so that two calls that change the same file wait for each other while
//! calls on different files do not.
//!
//! The lock of a file goes by its canonical path where it exists, so that links to one file share
//! a lock. A file that does not exist yet goes by the canonical path of its directory, and where
//! that does not exist either, by its path seen from the working directory.

use crate::json::text_option;
use crate::message::optional_text;
use crate::path::{
    absolute, join, joined_path, name_of, name_text, parent_of, parent_text, path_key, PathKey,
    PathKeyView,
};
use crate::text::same_text;
use vstd::prelude::*;

verus! {

// ---------------------------------------------------------------------------------------------
// Finding the key
// ---------------------------------------------------------------------------------------------

/// `path` seen from the working directory; as it is where that is not known.
pub open spec fn absolutized(path: Seq<char>, cwd: Option<Seq<char>>) -> Seq<char> {
    match cwd {
        Some(cwd) => join(cwd, path),
        None => path,
    }
}

/// `path` seen from the working directory, which is not asked for where the path is absolute.
pub fn absolutize(path: &str, cwd: Option<&str>) -> (r: String)
    ensures
        r@ == absolutized(path@, text_option(cwd)),
{
    if absolute(path) {
        return path.to_string();
    }
    match cwd {
        Some(cwd) => joined_path(cwd, path),
        None => path.to_string(),
    }
}

/// The directory that stands for a file that does not exist: its parent, which is the working
/// directory for a bare name. A path without a name has none.
pub open spec fn anchor_of(path: Seq<char>) -> Option<Seq<char>> {
    match (parent_text(path), name_text(path)) {
        (Some(parent), Some(_)) => Some(
            if parent.len() == 0 {
                "."@
            } else {
                parent
            },
        ),
        _ => None,
    }
}

/// The directory whose canonical path is asked for when the file at `path` has none.
pub fn anchor(path: &str) -> (r: Option<String>)
    ensures
        optional_text(r) == anchor_of(path@),
{
    match (parent_of(path), name_of(path)) {
        (Some(parent), Some(_)) => {
            proof {
                reveal_strlit("");
            }
            if same_text(parent.as_str(), "") {
                assert(parent@.len() == 0);
                Some(String::from_str("."))
            } else {
                assert(parent@ =~= ""@ || parent@.len() > 0);
                Some(parent)
            }
        },
        _ => None,
    }
}

/// What the lock of the file at `path` goes by: its canonical path, else its name behind the
/// canonical path of its directory, else its path seen from the working directory.
pub open spec fn key_of(
    path: Seq<char>,
    canonical: Option<Seq<char>>,
    canonical_anchor: Option<Seq<char>>,
    cwd: Option<Seq<char>>,
) -> Seq<char> {
    match (canonical, name_text(path), canonical_anchor) {
        (Some(canonical), _, _) => canonical,
        (None, Some(name), Some(anchor)) => join(anchor, name),
        _ => absolutized(path, cwd),
    }
}

/// What the lock of the file at `path` goes by. `canonical_anchor` is the canonical path of its
/// [`anchor`].
pub fn lock_key(
    path: &str,
    canonical: Option<String>,
    canonical_anchor: Option<String>,
    cwd: Option<&str>,
) -> (r: String)
    ensures
        r@ == key_of(
            path@,
            optional_text(canonical),
            optional_text(canonical_anchor),
            text_option(cwd),
        ),
{
    if let Some(canonical) = canonical {
        return canonical;
    }
    match (name_of(path), canonical_anchor) {
        (Some(name), Some(anchor)) => joined_path(anchor.as_str(), name.as_str()),
        _ => absolutize(path, cwd),
    }
}

// ---------------------------------------------------------------------------------------------
// The locks
// ---------------------------------------------------------------------------------------------

/// The locks that have been asked for, each under the path of its file. A lock is known by its
/// number, which it keeps.
#[derive(Debug)]
pub struct LockRegistry {
    keys: Vec<PathKey>,
}

impl View for LockRegistry {
    type V = Seq<PathKeyView>;

    /// The path of each lock, by number.
    closed spec fn view(&self) -> Seq<PathKeyView> {
        Seq::new(self.keys@.len(), |i: int| self.keys@[i]@)
    }
}

/// Asking for the lock of the file at `key` takes the locks from `before` to `after` and gives the
/// lock with the number `lock`.
pub open spec fn hands_out(
    before: Seq<PathKeyView>,
    after: Seq<PathKeyView>,
    key: Seq<char>,
    lock: int,
) -> bool {
    &&& 0 <= lock < after.len()
    &&& after[lock] == path_key(key)
    &&& if before.contains(path_key(key)) {
        after == before
    } else {
        after == before.push(path_key(key))
    }
}

impl LockRegistry {
    /// No file has two locks.
    pub open spec fn wf(self) -> bool {
        forall|i: int, j: int|
            0 <= i < j < self@.len() ==> #[trigger] self@[i] != #[trigger] self@[j]
    }

    /// No lock has been asked for.
    pub fn new() -> (r: LockRegistry)
        ensures
            r.wf(),
            r@ == Seq::<PathKeyView>::empty(),
    {
        LockRegistry { keys: Vec::new() }
    }

    /// How many locks there are.
    pub fn count(&self) -> (r: usize)
        ensures
            r == self@.len(),
    {
        self.keys.len()
    }

    /// The lock of the file at `key`: the one that it has, or else a new one.
    pub fn lock_for(&mut self, key: &str) -> (r: usize)
        requires
            old(self).wf(),
        ensures
            final(self).wf(),
            r < final(self)@.len(),
            final(self)@[r as int] == path_key(key@),
            old(self)@.contains(path_key(key@)) ==> final(self)@ == old(self)@,
            !old(self)@.contains(path_key(key@)) ==> final(self)@ == old(self)@.push(
                path_key(key@),
            ),
            hands_out(old(self)@, final(self)@, key@, r as int),
    {
        let wanted = PathKey::of(key);
        let ghost before = self@;
        let mut i: usize = 0;
        while i < self.keys.len()
            invariant
                i <= self.keys@.len(),
                self@ == before,
                *self == *old(self),
                self.wf(),
                wanted@ == path_key(key@),
                before == old(self)@,
                forall|k: int| 0 <= k < i ==> #[trigger] before[k] != wanted@,
            decreases self.keys@.len() - i,
        {
            if self.keys[i].same(&wanted) {
                assert(before[i as int] == wanted@);
                return i;
            }
            i += 1;
        }
        self.keys.push(wanted);
        assert(self@ =~= before.push(path_key(key@)));
        assert(!before.contains(path_key(key@)));
        i
    }
}

// ---------------------------------------------------------------------------------------------
// Laws
// ---------------------------------------------------------------------------------------------

/// A file that exists has the lock of its canonical path, by whatever path it is reached.
pub proof fn law_links_share_a_lock(
    a: Seq<char>,
    b: Seq<char>,
    canonical: Seq<char>,
    anchor_a: Option<Seq<char>>,
    anchor_b: Option<Seq<char>>,
    cwd: Option<Seq<char>>,
)
    ensures
        key_of(a, Some(canonical), anchor_a, cwd) == key_of(b, Some(canonical), anchor_b, cwd),
{
}

/// A file that does not exist yet has one lock for all paths to it through its directory: two paths
/// with one name, whose directories have one canonical path.
pub proof fn law_new_file_has_one_lock(
    a: Seq<char>,
    b: Seq<char>,
    name: Seq<char>,
    anchor: Seq<char>,
    cwd: Option<Seq<char>>,
)
    requires
        name_text(a) == Some(name),
        name_text(b) == Some(name),
    ensures
        key_of(a, None, Some(anchor), cwd) == key_of(b, None, Some(anchor), cwd),
        key_of(a, None, Some(anchor), cwd) == join(anchor, name),
{
}

/// The same file has the same lock and two files have two, however many locks were asked for in
/// between: `earlier` is the registry after one call, and `later` after a call that came later.
pub proof fn law_one_lock_for_each_file(
    earlier: LockRegistry,
    later: LockRegistry,
    a: PathKeyView,
    b: PathKeyView,
    lock_a: int,
    lock_b: int,
)
    requires
        later.wf(),
        0 <= lock_a < earlier@.len(),
        earlier@[lock_a] == a,
        earlier@.is_prefix_of(later@),
        0 <= lock_b < later@.len(),
        later@[lock_b] == b,
    ensures
        lock_a == lock_b <==> a == b,
{
    assert(later@[lock_a] == earlier@[lock_a]);
    if lock_a < lock_b {
        assert(later@[lock_a] != later@[lock_b]);
    } else if lock_b < lock_a {
        assert(later@[lock_b] != later@[lock_a]);
    }
}

/// A file that exists goes by its canonical path. One that does not, but whose directory does, goes
/// by its name behind the canonical path of that. Where neither exists, or the path has no name, it
/// goes by its path seen from the working directory, or as it is where that is not known.
pub proof fn law_key_is_as_canonical_as_can_be(
    path: Seq<char>,
    canonical: Seq<char>,
    anchor: Option<Seq<char>>,
    name: Seq<char>,
    directory: Seq<char>,
    cwd: Seq<char>,
)
    ensures
        key_of(path, Some(canonical), anchor, Some(cwd)) == canonical,
        key_of(path, Some(canonical), anchor, None) == canonical,
        name_text(path) == Some(name) ==> key_of(path, None, Some(directory), Some(cwd)) == join(
            directory,
            name,
        ),
        key_of(path, None, None, Some(cwd)) == join(cwd, path),
        key_of(path, None, None, None) == path,
        name_text(path) is None ==> key_of(path, None, anchor, Some(cwd)) == join(cwd, path),
        name_text(path) is None ==> key_of(path, None, anchor, None) == path,
{
}

/// An absolute path is what it is from every working directory; a relative one is put behind it.
pub proof fn law_absolute_paths_stay(path: Seq<char>, cwd: Seq<char>)
    ensures
        path.len() > 0 && path[0] == '/' ==> absolutized(path, Some(cwd)) == path,
        absolutized(path, None) == path,
        cwd.len() > 0 && cwd.last() != '/' && !(path.len() > 0 && path[0] == '/') ==> absolutized(
            path,
            Some(cwd),
        ) == cwd + seq!['/'] + path,
{
    if cwd.len() > 0 && cwd.last() != '/' && !(path.len() > 0 && path[0] == '/') {
        assert(absolutized(path, Some(cwd)) =~= cwd + seq!['/'] + path);
    }
}

/// A missing file is looked for in the directory above it, and a bare name in the working
/// directory; a path without a name is not looked for.
pub proof fn law_missing_file_is_looked_for_above(path: Seq<char>, parent: Seq<char>)
    ensures
        name_text(path) is None ==> anchor_of(path) is None,
        name_text(path) is Some && parent_text(path) == Some(parent) && parent.len() > 0
            ==> anchor_of(path) == Some(parent),
        name_text(path) is Some && parent_text(path) == Some(parent) && parent.len() == 0
            ==> anchor_of(path) == Some("."@),
{
}

/// Asking for a lock leaves all others as they are and adds none to a file that has one; a file that
/// has none gets the next number.
pub proof fn law_locks_stay(
    before: Seq<PathKeyView>,
    after: Seq<PathKeyView>,
    key: Seq<char>,
    lock: int,
    i: int,
)
    requires
        hands_out(before, after, key, lock),
        forall|a: int, b: int|
            0 <= a < b < before.len() ==> #[trigger] before[a] != #[trigger] before[b],
        0 <= i < before.len(),
    ensures
        after[i] == before[i],
        before[i] == path_key(key) ==> lock == i && after.len() == before.len(),
        !before.contains(path_key(key)) ==> lock == before.len() && after.len() == before.len()
            + 1,
{
    if before[i] == path_key(key) {
        assert(before.contains(path_key(key)));
        if lock < i {
            assert(before[lock] != before[i]);
        } else if i < lock {
            assert(before[i] != before[lock]);
        }
    }
    if !before.contains(path_key(key)) && lock < before.len() {
        assert(before[lock] == path_key(key));
    }
}

} // verus!
