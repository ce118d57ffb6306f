//! Paths of a POSIX system, as text.

use crate::message::optional_text;
use crate::text::{begins_with, chars_of, ends_with, same_text, string_of, text_views};
use vstd::prelude::*;

verus! {

/// The path begins at the root.
pub open spec fn is_absolute(path: Seq<char>) -> bool {
    path.len() > 0 && path[0] == '/'
}

/// `path` seen from `base`: an absolute path stays as it is, another is put behind `base`, with a
/// slash between them where `base` is not empty and has none at its end.
pub open spec fn join(base: Seq<char>, path: Seq<char>) -> Seq<char> {
    if is_absolute(path) {
        path
    } else if base.len() == 0 || base.last() == '/' {
        base + path
    } else {
        base.push('/') + path
    }
}

/// Parts put behind each other, beginning with an empty path.
pub open spec fn join_all(parts: Seq<&str>) -> Seq<char>
    decreases parts.len(),
{
    if parts.len() == 0 {
        Seq::empty()
    } else {
        join(join_all(parts.drop_last()), parts.last()@)
    }
}

/// Whether the path begins at the root.
pub fn absolute(path: &str) -> (r: bool)
    ensures
        r == is_absolute(path@),
{
    let chars = chars_of(path);
    chars.len() > 0 && chars[0] == '/'
}

/// `path` seen from `base`.
pub fn joined_path(base: &str, path: &str) -> (r: String)
    ensures
        r@ == join(base@, path@),
{
    let mut out = String::new();
    if absolute(path) {
        out.push_str(path);
        assert(out@ =~= path@);
        return out;
    }
    let chars = chars_of(base);
    out.push_str(base);
    if chars.len() > 0 && chars[chars.len() - 1] != '/' {
        out.push('/');
    }
    out.push_str(path);
    assert(out@ =~= join(base@, path@));
    out
}

/// Parts put behind each other.
pub fn joined_parts(parts: &[&str]) -> (r: String)
    ensures
        r@ == join_all(parts@),
{
    let mut out = String::new();
    let mut i: usize = 0;
    assert(out@ =~= join_all(parts@.take(0)));
    while i < parts.len()
        invariant
            i <= parts@.len(),
            out@ == join_all(parts@.take(i as int)),
        decreases parts@.len() - i,
    {
        assert(parts@.take(i + 1).drop_last() =~= parts@.take(i as int));
        out = joined_path(out.as_str(), parts[i]);
        i += 1;
    }
    assert(parts@.take(i as int) =~= parts@);
    out
}

/// A path seen from an absolute one is absolute, and an absolute path is what it is from anywhere.
pub proof fn law_join_is_absolute(base: Seq<char>, path: Seq<char>)
    ensures
        is_absolute(base) ==> is_absolute(join(base, path)),
        is_absolute(path) ==> join(base, path) == path,
{
}

/// A relative path seen from `base` keeps both: it begins with `base` and ends with the path.
pub proof fn law_join_keeps_both(base: Seq<char>, path: Seq<char>)
    requires
        !is_absolute(path),
    ensures
        begins_with(join(base, path), base),
        ends_with(join(base, path), path),
{
    let whole = join(base, path);
    assert(whole.take(base.len() as int) =~= base);
    assert(whole.skip(whole.len() - path.len()) =~= path);
}

/// Going down step by step is going down at once.
pub proof fn law_join_is_associative(a: Seq<char>, b: Seq<char>, c: Seq<char>)
    requires
        b.len() > 0 || is_absolute(c),
    ensures
        join(join(a, b), c) == join(a, join(b, c)),
{
    if !is_absolute(c) {
        assert(join(join(a, b), c) =~= join(a, join(b, c)));
    }
}

/// What stands before the last absolute part does not matter.
pub proof fn law_absolute_part_begins_anew(parts: Seq<&str>, i: int)
    requires
        0 <= i < parts.len(),
        is_absolute(parts[i]@),
    ensures
        join_all(parts) == join_all(parts.skip(i)),
    decreases parts.len(),
{
    let front = parts.drop_last();
    if i == parts.len() - 1 {
        let single = parts.skip(i);
        assert(single.drop_last() =~= Seq::<&str>::empty());
        assert(join_all(single) == join(join_all(single.drop_last()), single.last()@));
    } else {
        law_absolute_part_begins_anew(front, i);
        assert(parts.skip(i).drop_last() =~= front.skip(i));
    }
}

// ---------------------------------------------------------------------------------------------
// Which paths are the same
// ---------------------------------------------------------------------------------------------

/// What stands between the slashes of a path.
pub open spec fn pieces(path: Seq<char>) -> Seq<Seq<char>>
    decreases path.len(),
{
    if path.len() == 0 {
        seq![Seq::empty()]
    } else {
        let front = pieces(path.drop_last());
        if path.last() == '/' {
            front.push(Seq::empty())
        } else {
            front.drop_last().push(front.last().push(path.last()))
        }
    }
}

/// A piece counts where it is not empty and not a dot; a dot counts where a relative path begins
/// with it.
pub open spec fn piece_counts(piece: Seq<char>, first: bool, absolute: bool) -> bool {
    piece.len() > 0 && (piece != "."@ || (first && !absolute))
}

/// The pieces that count.
pub open spec fn counting_pieces(pieces: Seq<Seq<char>>, absolute: bool) -> Seq<Seq<char>>
    decreases pieces.len(),
{
    if pieces.len() == 0 {
        Seq::empty()
    } else {
        let front = counting_pieces(pieces.drop_last(), absolute);
        if piece_counts(pieces.last(), pieces.len() == 1, absolute) {
            front.push(pieces.last())
        } else {
            front
        }
    }
}

/// The value of a path, in which it makes no difference how the pieces are set apart.
pub struct PathKeyView {
    pub absolute: bool,
    pub parts: Seq<Seq<char>>,
}

/// The value of the path that is written `path`.
pub open spec fn path_key(path: Seq<char>) -> PathKeyView {
    PathKeyView {
        absolute: is_absolute(path),
        parts: counting_pieces(pieces(path), is_absolute(path)),
    }
}

/// A path as the pieces that it is made of.
#[derive(Debug, PartialEq)]
pub struct PathKey {
    pub absolute: bool,
    pub parts: Vec<String>,
}

impl View for PathKey {
    type V = PathKeyView;

    open spec fn view(&self) -> PathKeyView {
        PathKeyView { absolute: self.absolute, parts: text_views(self.parts@) }
    }
}

/// A path has a last piece.
proof fn lemma_pieces_nonempty(path: Seq<char>)
    ensures
        pieces(path).len() > 0,
    decreases path.len(),
{
    if path.len() > 0 {
        lemma_pieces_nonempty(path.drop_last());
    }
}

/// Puts a piece to those that count, where it does.
fn keep_piece(parts: &mut Vec<String>, piece: &Vec<char>, first: bool, absolute: bool)
    ensures
        text_views(final(parts)@) == if piece_counts(piece@, first, absolute) {
            text_views(old(parts)@).push(piece@)
        } else {
            text_views(old(parts)@)
        },
{
    let text = string_of(piece, 0, piece.len());
    assert(text@ =~= piece@);
    if piece.len() > 0 && (!same_text(text.as_str(), ".") || (first && !absolute)) {
        let ghost before = parts@;
        parts.push(text);
        assert(text_views(parts@) =~= text_views(before).push(piece@));
    }
}

impl PathKey {
    /// The path that is written `path`.
    pub fn of(path: &str) -> (r: PathKey)
        ensures
            r@ == path_key(path@),
    {
        let rooted = absolute(path);
        let chars = chars_of(path);
        let mut parts: Vec<String> = Vec::new();
        let mut piece: Vec<char> = Vec::new();
        let mut first = true;
        let ghost mut done: Seq<Seq<char>> = Seq::empty();
        let mut i: usize = 0;
        proof {
            assert(pieces(chars@.take(0)) =~= done.push(piece@));
            assert(text_views(parts@) =~= counting_pieces(done, rooted));
        }
        while i < chars.len()
            invariant
                i <= chars@.len(),
                pieces(chars@.take(i as int)) == done.push(piece@),
                text_views(parts@) == counting_pieces(done, rooted),
                first == (done.len() == 0),
            decreases chars@.len() - i,
        {
            assert(chars@.take(i + 1).drop_last() =~= chars@.take(i as int));
            assert(done.push(piece@).drop_last() =~= done);
            if chars[i] == '/' {
                keep_piece(&mut parts, &piece, first, rooted);
                proof {
                    done = done.push(piece@);
                }
                first = false;
                piece = Vec::new();
                assert(pieces(chars@.take(i + 1)) =~= done.push(piece@));
            } else {
                piece.push(chars[i]);
                assert(pieces(chars@.take(i + 1)) =~= done.push(piece@));
            }
            i += 1;
        }
        assert(chars@.take(i as int) =~= chars@);
        assert(done.push(piece@).drop_last() =~= done);
        keep_piece(&mut parts, &piece, first, rooted);
        PathKey { absolute: rooted, parts }
    }

    /// Whether the two are the same path.
    pub fn same(&self, other: &PathKey) -> (r: bool)
        ensures
            r == (self@ == other@),
    {
        if self.absolute != other.absolute || self.parts.len() != other.parts.len() {
            assert(self@.parts.len() == self.parts@.len());
            assert(other@.parts.len() == other.parts@.len());
            return false;
        }
        let mut i: usize = 0;
        while i < self.parts.len()
            invariant
                i <= self.parts@.len(),
                self.parts@.len() == other.parts@.len(),
                forall|k: int| 0 <= k < i ==> self.parts@[k]@ == (#[trigger] other.parts@[k])@,
            decreases self.parts@.len() - i,
        {
            if !same_text(self.parts[i].as_str(), other.parts[i].as_str()) {
                assert(self@.parts[i as int] != other@.parts[i as int]);
                return false;
            }
            i += 1;
        }
        assert(self@.parts =~= other@.parts);
        true
    }
}

/// A slash at the end makes no other path of it.
pub proof fn law_trailing_slash_is_nothing(path: Seq<char>)
    requires
        path.len() > 0,
    ensures
        path_key(path.push('/')) == path_key(path),
{
    let longer = path.push('/');
    assert(longer.drop_last() =~= path);
    lemma_pieces_nonempty(path);
    let empty = Seq::<char>::empty();
    assert(pieces(longer) == pieces(path).push(empty));
    assert(pieces(path).push(empty).drop_last() =~= pieces(path));
    assert(path_key(longer).parts =~= path_key(path).parts);
}

// ---------------------------------------------------------------------------------------------
// Parent and name
// ---------------------------------------------------------------------------------------------

/// Where the piece of a path begins that ends at `end`.
pub open spec fn piece_start(path: Seq<char>, end: int) -> int
    decreases end,
{
    if end <= 0 || path[end - 1] == '/' {
        end
    } else {
        piece_start(path, end - 1)
    }
}

/// The piece of a path that ends at `end`.
pub open spec fn piece_at(path: Seq<char>, end: int) -> Seq<char> {
    path.subrange(piece_start(path, end), end)
}

/// Where the last piece that counts ends, of those that end at `end` or before it; 0 where there is
/// none.
pub open spec fn last_part_end(path: Seq<char>, end: int) -> int
    decreases end,
    via last_part_end_decreases
{
    let start = piece_start(path, end);
    if end <= 0 {
        0
    } else if piece_counts(piece_at(path, end), start == 0, is_absolute(path)) {
        end
    } else if start <= 0 {
        0
    } else {
        last_part_end(path, start - 1)
    }
}

#[via_fn]
proof fn last_part_end_decreases(path: Seq<char>, end: int) {
    if end > 0 {
        lemma_piece_start(path, end);
    }
}

/// A piece lies in the path, holds no slash, and begins at the front or behind a slash.
proof fn lemma_piece_start(path: Seq<char>, end: int)
    requires
        0 <= end,
    ensures
        0 <= piece_start(path, end) <= end,
        forall|i: int| piece_start(path, end) <= i < end ==> path[i] != '/',
        piece_start(path, end) > 0 ==> path[piece_start(path, end) - 1] == '/',
    decreases end,
{
    if end > 0 && path[end - 1] != '/' {
        lemma_piece_start(path, end - 1);
    }
}

/// The part of a path before its last piece that counts, without what sets the two apart. A path
/// with a single piece has the root for its parent, or an empty one where it is relative; the root
/// and the empty path have none.
pub open spec fn parent_text(path: Seq<char>) -> Option<Seq<char>> {
    let end = last_part_end(path, path.len() as int);
    let before = last_part_end(path, piece_start(path, end) - 1);
    if end == 0 {
        None
    } else if before > 0 {
        Some(path.take(before))
    } else if is_absolute(path) {
        Some(seq!['/'])
    } else {
        Some(Seq::empty())
    }
}

/// The last piece of a path that counts, where it is a name: `..` is none, and neither is the dot
/// that a relative path begins with.
pub open spec fn name_text(path: Seq<char>) -> Option<Seq<char>> {
    let end = last_part_end(path, path.len() as int);
    let piece = piece_at(path, end);
    if end == 0 || piece == "."@ || piece == ".."@ {
        None
    } else {
        Some(piece)
    }
}

fn find_piece_start(path: &Vec<char>, end: usize) -> (r: usize)
    requires
        end <= path@.len(),
    ensures
        r == piece_start(path@, end as int),
        r <= end,
{
    let mut i: usize = end;
    while i > 0 && path[i - 1] != '/'
        invariant
            i <= end <= path@.len(),
            piece_start(path@, end as int) == piece_start(path@, i as int),
        decreases i,
    {
        i -= 1;
    }
    i
}

fn find_last_part_end(path: &Vec<char>, from: usize) -> (r: usize)
    requires
        from <= path@.len(),
    ensures
        r == last_part_end(path@, from as int),
        r <= from,
{
    let rooted = path.len() > 0 && path[0] == '/';
    let mut end: usize = from;
    while end > 0
        invariant
            end <= from <= path@.len(),
            rooted == is_absolute(path@),
            last_part_end(path@, from as int) == last_part_end(path@, end as int),
        decreases end,
    {
        let start = find_piece_start(path, end);
        let piece = string_of(path, start, end);
        if piece_is_part(piece.as_str(), start == 0, rooted) {
            return end;
        }
        if start == 0 {
            return 0;
        }
        end = start - 1;
    }
    0
}

/// Whether the piece counts.
fn piece_is_part(piece: &str, first: bool, absolute: bool) -> (r: bool)
    ensures
        r == piece_counts(piece@, first, absolute),
{
    proof {
        reveal_strlit("");
        assert(piece@ =~= ""@ || piece@.len() > 0);
    }
    !same_text(piece, "") && (!same_text(piece, ".") || (first && !absolute))
}

/// The part of a path before its last piece.
pub fn parent_of(path: &str) -> (r: Option<String>)
    ensures
        optional_text(r) == parent_text(path@),
{
    let chars = chars_of(path);
    let end = find_last_part_end(&chars, chars.len());
    if end == 0 {
        return None;
    }
    let start = find_piece_start(&chars, end);
    let before = if start > 0 {
        find_last_part_end(&chars, start - 1)
    } else {
        0
    };
    let mut out = string_of(&chars, 0, before);
    assert(chars@.subrange(0, before as int) =~= chars@.take(before as int));
    if before == 0 && chars[0] == '/' {
        out.push('/');
        assert(out@ =~= seq!['/']);
    } else if before == 0 {
        assert(out@ =~= Seq::<char>::empty());
    }
    Some(out)
}

/// The name of what a path leads to.
pub fn name_of(path: &str) -> (r: Option<String>)
    ensures
        optional_text(r) == name_text(path@),
{
    let chars = chars_of(path);
    let end = find_last_part_end(&chars, chars.len());
    if end == 0 {
        return None;
    }
    let piece = string_of(&chars, find_piece_start(&chars, end), end);
    if same_text(piece.as_str(), ".") || same_text(piece.as_str(), "..") {
        None
    } else {
        Some(piece)
    }
}

/// What stands between the slashes of two paths with a slash between them.
proof fn lemma_pieces_concat(a: Seq<char>, b: Seq<char>)
    ensures
        pieces(a.push('/') + b) == pieces(a) + pieces(b),
    decreases b.len(),
{
    let whole = a.push('/') + b;
    lemma_pieces_nonempty(b);
    if b.len() == 0 {
        assert(whole =~= a.push('/'));
        assert(whole.drop_last() =~= a);
        assert(pieces(whole) =~= pieces(a) + pieces(b));
    } else {
        assert(whole.drop_last() =~= a.push('/') + b.drop_last());
        lemma_pieces_concat(a, b.drop_last());
        lemma_pieces_nonempty(b.drop_last());
        assert(pieces(whole) =~= pieces(a) + pieces(b));
    }
}

/// A text without a slash is one piece.
proof fn lemma_pieces_single(s: Seq<char>)
    requires
        forall|i: int| 0 <= i < s.len() ==> s[i] != '/',
    ensures
        pieces(s) == seq![s],
    decreases s.len(),
{
    if s.len() > 0 {
        let front = s.drop_last();
        lemma_pieces_single(front);
        assert(s =~= front.push(s.last()));
        assert(seq![front].last() == front);
        assert(pieces(s) =~= seq![s]);
    } else {
        assert(s =~= Seq::<char>::empty());
        assert(pieces(s) =~= seq![s]);
    }
}

/// Of pieces that come behind others none is the first.
proof fn lemma_counting_concat(a: Seq<Seq<char>>, b: Seq<Seq<char>>, absolute: bool)
    requires
        a.len() > 0,
    ensures
        counting_pieces(a + b, absolute) == counting_pieces(a, absolute) + counting_pieces(b, true),
    decreases b.len(),
{
    if b.len() == 0 {
        assert(a + b =~= a);
        assert(counting_pieces(a, absolute) + counting_pieces(b, true) =~= counting_pieces(
            a,
            absolute,
        ));
    } else {
        assert((a + b).drop_last() =~= a + b.drop_last());
        lemma_counting_concat(a, b.drop_last(), absolute);
        assert(counting_pieces(a + b, absolute) =~= counting_pieces(a, absolute) + counting_pieces(
            b,
            true,
        ));
    }
}

/// What counts of a single piece.
proof fn lemma_counting_single(piece: Seq<char>, absolute: bool)
    ensures
        counting_pieces(seq![piece], absolute) == if piece_counts(piece, true, absolute) {
            seq![piece]
        } else {
            Seq::empty()
        },
{
    assert(seq![piece].drop_last() =~= Seq::<Seq<char>>::empty());
    assert(counting_pieces(seq![piece].drop_last(), absolute) == Seq::<Seq<char>>::empty());
    assert(Seq::<Seq<char>>::empty().push(piece) =~= seq![piece]);
}

/// The pieces that count of a path up to `end`, whose last piece begins at `start`.
proof fn lemma_parts_up_to(path: Seq<char>, end: int, absolute: bool)
    requires
        0 < end <= path.len(),
    ensures
        ({
            let start = piece_start(path, end);
            let piece = piece_at(path, end);
            let parts = counting_pieces(pieces(path.take(end)), absolute);
            &&& start == 0 ==> path.take(end) == piece && parts == if piece_counts(
                piece,
                true,
                absolute,
            ) {
                seq![piece]
            } else {
                Seq::empty()
            }
            &&& start > 0 ==> parts == counting_pieces(pieces(path.take(start - 1)), absolute) + (
            if piece_counts(piece, false, absolute) {
                seq![piece]
            } else {
                Seq::empty()
            })
        }),
{
    lemma_piece_start(path, end);
    let start = piece_start(path, end);
    let piece = piece_at(path, end);
    assert forall|i: int| 0 <= i < piece.len() implies piece[i] != '/' by {
        assert(piece[i] == path[start + i]);
    }
    lemma_pieces_single(piece);
    if start == 0 {
        assert(path.take(end) =~= piece);
        lemma_counting_single(piece, absolute);
    } else {
        let before = path.take(start - 1);
        assert(path.take(end) =~= before.push('/') + piece);
        lemma_pieces_concat(before, piece);
        lemma_pieces_nonempty(before);
        lemma_counting_concat(pieces(before), seq![piece], absolute);
        lemma_counting_single(piece, true);
    }
}

/// What lies behind the last piece that counts does not count.
proof fn lemma_last_part_end(path: Seq<char>, end: int)
    requires
        end <= path.len(),
    ensures
        ({
            let last = last_part_end(path, end);
            &&& 0 <= last <= path.len()
            &&& end >= 0 ==> last <= end && counting_pieces(
                pieces(path.take(end)),
                is_absolute(path),
            ) == counting_pieces(pieces(path.take(last)), is_absolute(path))
            &&& last > 0 ==> piece_counts(
                piece_at(path, last),
                piece_start(path, last) == 0,
                is_absolute(path),
            )
        }),
    decreases end,
{
    if end > 0 {
        let start = piece_start(path, end);
        lemma_piece_start(path, end);
        lemma_parts_up_to(path, end, is_absolute(path));
        if !piece_counts(piece_at(path, end), start == 0, is_absolute(path)) {
            if start > 0 {
                lemma_last_part_end(path, start - 1);
                assert(counting_pieces(pieces(path.take(end)), is_absolute(path))
                    =~= counting_pieces(pieces(path.take(start - 1)), is_absolute(path)));
            } else {
                lemma_empty_path(is_absolute(path));
                assert(path.take(0) =~= Seq::<char>::empty());
            }
        }
    }
}

/// Nothing counts of an empty path.
proof fn lemma_empty_path(absolute: bool)
    ensures
        counting_pieces(pieces(Seq::empty()), absolute) == Seq::<Seq<char>>::empty(),
{
    lemma_pieces_single(Seq::empty());
    lemma_counting_single(Seq::empty(), absolute);
}

/// The name of a path seen from its parent is the path again. A path that has a name has a parent.
pub proof fn law_parent_and_name_make_the_path(path: Seq<char>)
    requires
        name_text(path) is Some,
    ensures
        parent_text(path) is Some,
        path_key(join(parent_text(path).unwrap(), name_text(path).unwrap())) == path_key(path),
{
    let rooted = is_absolute(path);
    let n = path.len() as int;
    let end = last_part_end(path, n);
    let start = piece_start(path, end);
    let name = piece_at(path, end);
    lemma_last_part_end(path, n);
    lemma_piece_start(path, end);
    lemma_parts_up_to(path, end, rooted);
    lemma_last_part_end(path, start - 1);
    assert(path.take(n) =~= path);
    let before = last_part_end(path, start - 1);
    let parts = counting_pieces(pieces(path.take(before)), rooted);
    lemma_empty_path(rooted);
    assert(path.take(0) =~= Seq::<char>::empty());
    assert(path_key(path).parts =~= parts + seq![name]);
    assert forall|i: int| 0 <= i < name.len() implies name[i] != '/' by {
        assert(name[i] == path[start + i]);
    }
    lemma_pieces_single(name);
    lemma_counting_single(name, true);
    lemma_counting_single(name, false);
    let parent = parent_text(path).unwrap();
    let whole = join(parent, name);
    assert(!is_absolute(name));
    if before > 0 {
        lemma_piece_start(path, before);
        assert(path[before - 1] != '/') by {
            if piece_start(path, before) == before {
                assert(piece_at(path, before).len() == 0);
            }
        }
        assert(whole =~= parent.push('/') + name);
        lemma_pieces_concat(parent, name);
        lemma_pieces_nonempty(parent);
        lemma_counting_concat(pieces(parent), seq![name], rooted);
        assert(whole[0] == path[0]);
        assert(path_key(whole).parts =~= path_key(path).parts);
    } else if rooted {
        let empty = Seq::<char>::empty();
        assert(whole =~= empty.push('/') + name);
        lemma_pieces_concat(empty, name);
        lemma_pieces_nonempty(empty);
        lemma_counting_concat(pieces(empty), seq![name], rooted);
        assert(path_key(whole).parts =~= path_key(path).parts);
    } else {
        assert(whole =~= name);
        assert(path_key(whole).parts =~= path_key(path).parts);
    }
}

/// A bare name has an empty parent and is its own name.
pub proof fn law_bare_name(name: Seq<char>)
    requires
        name.len() > 0,
        forall|i: int| 0 <= i < name.len() ==> name[i] != '/',
        name != "."@,
        name != ".."@,
    ensures
        parent_text(name) == Some(Seq::<char>::empty()),
        name_text(name) == Some(name),
{
    lemma_piece_start(name, name.len() as int);
    assert(piece_at(name, name.len() as int) =~= name);
}

/// A path that begins with a slash is absolute and is what it is from anywhere; another is put
/// behind the base, with one slash between them.
pub proof fn law_join_puts_one_slash_between(base: Seq<char>, path: Seq<char>)
    ensures
        is_absolute(path) <==> path.len() > 0 && path[0] == '/',
        path.len() > 0 && path[0] == '/' ==> join(base, path) == path,
        !(path.len() > 0 && path[0] == '/') ==> join(base, path) == if base.len() == 0 {
            path
        } else if base.last() == '/' {
            base + path
        } else {
            base + seq!['/'] + path
        },
{
    if !(path.len() > 0 && path[0] == '/') {
        if base.len() == 0 {
            assert(join(base, path) =~= path);
        } else if base.last() != '/' {
            assert(join(base, path) =~= base + seq!['/'] + path);
        }
    }
}

/// Parts are joined from the front, one by one.
pub proof fn law_parts_are_joined_in_order(parts: Seq<&str>, part: &str)
    ensures
        join_all(Seq::empty()).len() == 0,
        join_all(parts.push(part)) == join(join_all(parts), part@),
{
    assert(parts.push(part).drop_last() =~= parts);
}

/// A slash parts a path in two, and what holds no slash is one piece.
pub proof fn law_slashes_part_a_path(a: Seq<char>, b: Seq<char>, piece: Seq<char>)
    requires
        forall|i: int| 0 <= i < piece.len() ==> piece[i] != '/',
    ensures
        pieces(a + seq!['/'] + b) == pieces(a) + pieces(b),
        pieces(piece) == seq![piece],
{
    assert(a + seq!['/'] + b =~= a.push('/') + b);
    lemma_pieces_concat(a, b);
    lemma_pieces_single(piece);
}

/// Of the pieces behind the first, empty ones and single dots make no difference and all others
/// do, two dots among them. Of the first a single dot makes a difference where the path is
/// relative.
pub proof fn law_which_pieces_count(
    pieces: Seq<Seq<char>>,
    piece: Seq<char>,
    absolute: bool,
)
    ensures
        counting_pieces(Seq::empty(), absolute).len() == 0,
        pieces.len() > 0 ==> counting_pieces(pieces.push(piece), absolute) == if piece.len() == 0
            || piece == seq!['.'] {
            counting_pieces(pieces, absolute)
        } else {
            counting_pieces(pieces, absolute).push(piece)
        },
        counting_pieces(seq![piece], absolute) == if piece.len() == 0 || (piece == seq!['.']
            && absolute) {
            Seq::empty()
        } else {
            seq![piece]
        },
{
    reveal_strlit(".");
    assert("."@ =~= seq!['.']);
    assert(pieces.push(piece).drop_last() =~= pieces);
    assert(pieces.push(piece).last() == piece);
    lemma_counting_single(piece, absolute);
}

/// Two ways to write a path stand for one path if and only if both or neither begin at the root and
/// the pieces that count are the same.
pub proof fn law_same_path(a: Seq<char>, b: Seq<char>)
    ensures
        path_key(a) == path_key(b) <==> is_absolute(a) == is_absolute(b) && counting_pieces(
            pieces(a),
            is_absolute(a),
        ) == counting_pieces(pieces(b), is_absolute(b)),
{
}

/// The root and the empty path have neither a parent nor a name.
pub proof fn law_root_has_no_parent()
    ensures
        parent_text(seq!['/']) is None,
        name_text(seq!['/']) is None,
        parent_text(Seq::empty()) is None,
        name_text(Seq::empty()) is None,
{
    let root = seq!['/'];
    assert(piece_start(root, 1) == 1);
    assert(last_part_end(root, 0) == 0);
    assert(last_part_end(root, 1) == 0);
}

/// A name right below the root has the root for its parent.
pub proof fn law_name_below_the_root(name: Seq<char>)
    requires
        name.len() > 0,
        forall|i: int| 0 <= i < name.len() ==> name[i] != '/',
        name != "."@,
        name != ".."@,
    ensures
        parent_text(seq!['/'] + name) == Some(seq!['/']),
        name_text(seq!['/'] + name) == Some(name),
{
    let path = seq!['/'] + name;
    assert(path.subrange(1, path.len() as int) =~= name);
    lemma_name_at_the_end(path, 1, name);
    assert(last_part_end(path, 0) == 0);
}

/// A name at the end of a path, behind a slash, is its last part.
proof fn lemma_name_at_the_end(path: Seq<char>, start: int, name: Seq<char>)
    requires
        0 < start < path.len(),
        path.subrange(start, path.len() as int) == name,
        path[start - 1] == '/',
        forall|i: int| 0 <= i < name.len() ==> name[i] != '/',
        name != "."@,
    ensures
        piece_start(path, path.len() as int) == start,
        piece_at(path, path.len() as int) == name,
        last_part_end(path, path.len() as int) == path.len(),
{
    let n = path.len() as int;
    lemma_piece_start(path, n);
    let found = piece_start(path, n);
    assert(name.len() == n - start);
    assert(forall|i: int| start <= i < n ==> path[i] == #[trigger] name[i - start]);
    if found < start {
        assert(path[start - 1] != '/');
    }
    if found > start {
        assert(path[found - 1] == name[found - 1 - start]);
    }
}

/// A name behind a directory, with a slash between them, has that directory for its parent. The
/// directory may be written in any way that ends neither in a slash nor in a dot of its own.
pub proof fn law_name_below_a_directory(parent: Seq<char>, name: Seq<char>)
    requires
        parent.len() > 0,
        parent.last() != '/',
        parent.len() >= 2 ==> !(parent.last() == '.' && parent[parent.len() - 2] == '/'),
        name.len() > 0,
        forall|i: int| 0 <= i < name.len() ==> name[i] != '/',
        name != "."@,
        name != ".."@,
    ensures
        parent_text(parent + seq!['/'] + name) == Some(parent),
        name_text(parent + seq!['/'] + name) == Some(name),
{
    let path = parent + seq!['/'] + name;
    let m = parent.len() as int;
    assert(path.subrange(m + 1, path.len() as int) =~= name);
    lemma_name_at_the_end(path, m + 1, name);
    lemma_piece_start(path, m);
    let start = piece_start(path, m);
    let piece = piece_at(path, m);
    assert(path[m - 1] == parent.last());
    assert(start < m);
    assert(path.take(m) =~= parent);
    reveal_strlit(".");
    if piece == "."@ {
        assert(piece.len() == 1);
        assert(piece[0] == path[m - 1]);
        if start > 0 {
            assert(path[start - 1] == parent[m - 2]);
        }
    }
    assert(piece_counts(piece, start == 0, is_absolute(path)));
    assert(last_part_end(path, m) == m);
}

/// Two dots at the end of a path are no name.
pub proof fn law_two_dots_are_no_name(path: Seq<char>)
    requires
        path.len() > 0,
    ensures
        name_text(path + seq!['/', '.', '.']) is None,
{
    reveal_strlit("..");
    reveal_strlit(".");
    let whole = path + seq!['/', '.', '.'];
    let start = path.len() as int + 1;
    assert(whole.subrange(start, whole.len() as int) =~= ".."@);
    lemma_name_at_the_end(whole, start, ".."@);
}

/// A path that is a single dot, or two, has no name.
pub proof fn law_dots_are_no_names()
    ensures
        name_text("."@) is None,
        name_text(".."@) is None,
{
    reveal_strlit(".");
    reveal_strlit("..");
    lemma_piece_start("."@, 1);
    lemma_piece_start(".."@, 2);
    assert(piece_at("."@, 1) =~= "."@);
    assert(piece_at(".."@, 2) =~= ".."@);
}

} // verus!
