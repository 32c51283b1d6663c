//! Comparison of file paths.
//!
//! A path is a sequence of bytes, which need not be text.

use vstd::prelude::*;

use crate::text;

verus! {

/// The byte between the components of a path.
pub const SEPARATOR: u8 = 0x2f;

/// The byte which stands for the current directory when it stands alone.
pub const DOT: u8 = 0x2e;

/// What a list of paths holds.
pub open spec fn path_views(list: Seq<Vec<u8>>) -> Seq<Seq<u8>> {
    list.map_values(|path: Vec<u8>| path@)
}

/// Whether a piece of a path counts as a component wherever it stands.
pub open spec fn is_name(piece: Seq<u8>) -> bool {
    piece.len() > 0 && piece != seq![DOT]
}

/// The pieces of a path which count as components wherever they stand. Repeated
/// and trailing separators have no influence on them.
pub open spec fn names(path: Seq<u8>) -> Seq<Seq<u8>> {
    text::pieces(path, SEPARATOR).filter(|piece: Seq<u8>| is_name(piece))
}

/// Whether a path starts at the root directory.
pub open spec fn is_absolute(path: Seq<u8>) -> bool {
    path.len() > 0 && path[0] == SEPARATOR
}

/// Whether a path expressly starts at the current directory.
pub open spec fn starts_with_dot(path: Seq<u8>) -> bool {
    path.len() > 0 && path[0] == DOT && (path.len() == 1 || path[1] == SEPARATOR)
}

/// Whether two paths have the same components.
pub open spec fn same_path(a: Seq<u8>, b: Seq<u8>) -> bool {
    &&& is_absolute(a) == is_absolute(b)
    &&& starts_with_dot(a) == starts_with_dot(b)
    &&& names(a) == names(b)
}

proof fn lemma_names_push(list: Seq<Seq<u8>>, piece: Seq<u8>)
    ensures
        list.push(piece).filter(|piece: Seq<u8>| is_name(piece)) == (if is_name(piece) {
            list.filter(|piece: Seq<u8>| is_name(piece)).push(piece)
        } else {
            list.filter(|piece: Seq<u8>| is_name(piece))
        }),
{
    reveal(Seq::filter);
    assert(list.push(piece).drop_last() =~= list);
}

/// Adds the bytes of `path` from `start` up to `end` to `list`, if they count as
/// a component.
fn push_name(list: &mut Vec<Vec<u8>>, path: &[u8], start: usize, end: usize)
    requires
        start <= end <= path@.len(),
    ensures
        path_views(final(list)@) == (if is_name(path@.subrange(start as int, end as int)) {
            path_views(old(list)@).push(path@.subrange(start as int, end as int))
        } else {
            path_views(old(list)@)
        }),
{
    let ghost piece = path@.subrange(start as int, end as int);
    if start == end {
        assert(!is_name(piece));
    } else if end - start == 1 && path[start] == DOT {
        assert(piece =~= seq![DOT]);
    } else {
        assert(piece[0] == path@[start as int]);
        assert(is_name(piece));
        let name = vstd::slice::slice_to_vec(vstd::slice::slice_subrange(path, start, end));
        assert(name@ =~= piece);
        let ghost before = path_views(list@);
        list.push(name);
        assert(path_views(list@) =~= before.push(piece));
    }
}

/// The pieces of a path which count as components wherever they stand.
fn names_of(path: &[u8]) -> (list: Vec<Vec<u8>>)
    ensures
        path_views(list@) == names(path@),
{
    let ghost named = |piece: Seq<u8>| is_name(piece);
    let mut list: Vec<Vec<u8>> = Vec::new();
    let mut start: usize = 0;
    let mut i: usize = 0;
    proof {
        assert(path@.take(0) =~= Seq::<u8>::empty());
        assert(text::pieces(path@.take(0), SEPARATOR) =~= seq![path@.subrange(0, 0)]);
        assert(text::pieces(path@.take(0), SEPARATOR).drop_last() =~= Seq::<Seq<u8>>::empty());
        reveal(Seq::filter);
        assert(path_views(list@) =~= text::pieces(path@.take(0), SEPARATOR).drop_last().filter(named));
    }
    while i < path.len()
        invariant
            start <= i <= path@.len(),
            named == (|piece: Seq<u8>| is_name(piece)),
            text::pieces(path@.take(i as int), SEPARATOR).len() > 0,
            text::pieces(path@.take(i as int), SEPARATOR).last() == path@.subrange(
                start as int,
                i as int,
            ),
            path_views(list@) == text::pieces(
                path@.take(i as int),
                SEPARATOR,
            ).drop_last().filter(named),
        decreases path@.len() - i,
    {
        let ghost before = text::pieces(path@.take(i as int), SEPARATOR);
        let ghost after = text::pieces(path@.take(i + 1), SEPARATOR);
        assert(path@.take(i + 1).drop_last() =~= path@.take(i as int));
        if path[i] == SEPARATOR {
            proof {
                assert(after.drop_last() =~= before);
                assert(before =~= before.drop_last().push(before.last()));
                lemma_names_push(before.drop_last(), before.last());
            }
            push_name(&mut list, path, start, i);
            start = i + 1;
            assert(path@.subrange(start as int, i + 1) =~= Seq::<u8>::empty());
        } else {
            assert(after.drop_last() =~= before.drop_last());
            assert(path@.subrange(start as int, i + 1) =~= path@.subrange(
                start as int,
                i as int,
            ).push(path@[i as int]));
        }
        i += 1;
    }
    proof {
        let all = text::pieces(path@, SEPARATOR);
        assert(path@.take(i as int) =~= path@);
        assert(all =~= all.drop_last().push(all.last()));
        lemma_names_push(all.drop_last(), all.last());
    }
    push_name(&mut list, path, start, i);
    list
}

/// Whether two lists of names are equal.
fn same_names(a: &Vec<Vec<u8>>, b: &Vec<Vec<u8>>) -> (same: bool)
    ensures
        same == (path_views(a@) == path_views(b@)),
{
    if a.len() != b.len() {
        assert(path_views(a@).len() != path_views(b@).len());
        return false;
    }
    let mut i: usize = 0;
    while i < a.len()
        invariant
            i <= a@.len(),
            a@.len() == b@.len(),
            forall|j: int| 0 <= j < i ==> #[trigger] path_views(a@)[j] == path_views(b@)[j],
        decreases a@.len() - i,
    {
        if !text::same_bytes(a[i].as_slice(), b[i].as_slice()) {
            assert(path_views(a@)[i as int] != path_views(b@)[i as int]);
            return false;
        }
        i += 1;
    }
    assert(path_views(a@) =~= path_views(b@));
    true
}

/// Whether two paths have the same components.
pub fn equal_paths(a: &[u8], b: &[u8]) -> (same: bool)
    ensures
        same == same_path(a@, b@),
{
    let absolute_a = a.len() > 0 && a[0] == SEPARATOR;
    let absolute_b = b.len() > 0 && b[0] == SEPARATOR;
    let dot_a = a.len() > 0 && a[0] == DOT && (a.len() == 1 || a[1] == SEPARATOR);
    let dot_b = b.len() > 0 && b[0] == DOT && (b.len() == 1 || b[1] == SEPARATOR);
    absolute_a == absolute_b && dot_a == dot_b && same_names(&names_of(a), &names_of(b))
}

/// The components of a path which goes on behind a separator are those before
/// it and then those behind it. A piece without separator is one component as
/// it is, whatever its bytes and however many, except for the empty one and a
/// single dot.
pub proof fn law_components_of_parts(a: Seq<u8>, b: Seq<u8>, piece: Seq<u8>)
    ensures
        names(a.push(0x2f) + b) == names(a) + names(b),
        !piece.contains(0x2f) && piece.len() > 0 && piece != seq![0x2eu8] ==> names(piece) == seq![
            piece,
        ],
        piece.len() == 0 || piece == seq![0x2eu8] ==> names(piece) == Seq::<Seq<u8>>::empty(),
{
    let named = |piece: Seq<u8>| is_name(piece);
    text::law_split_of_parts(a, b, piece, SEPARATOR);
    Seq::filter_distributes_over_add(
        text::pieces(a, SEPARATOR),
        text::pieces(b, SEPARATOR),
        named,
    );
    if !piece.contains(0x2f) {
        let none = Seq::<Seq<u8>>::empty();
        assert(none.push(piece) =~= seq![piece]);
        lemma_names_push(none, piece);
        reveal(Seq::filter);
        assert(none.filter(named) =~= none);
    }
    if piece.len() == 0 || piece == seq![0x2eu8] {
        assert(!piece.contains(0x2f)) by {
            if piece.contains(0x2f) {
                let k = choose|k: int| 0 <= k < piece.len() && piece[k] == 0x2f;
            }
        }
    }
}

/// Two paths are the same if and only if they start in the same way, at the root
/// directory, expressly at the current one, or neither, and have the same
/// components.
pub proof fn law_same_paths(a: Seq<u8>, b: Seq<u8>)
    ensures
        same_path(a, b) <==> {
            &&& (a.len() > 0 && a[0] == 0x2f) == (b.len() > 0 && b[0] == 0x2f)
            &&& (a == seq![0x2eu8] || (a.len() > 1 && a[0] == 0x2e && a[1] == 0x2f)) == (b
                == seq![0x2eu8] || (b.len() > 1 && b[0] == 0x2e && b[1] == 0x2f))
            &&& names(a) == names(b)
        },
{
    if a.len() == 1 && a[0] == 0x2e {
        assert(a =~= seq![0x2eu8]);
    }
    if b.len() == 1 && b[0] == 0x2e {
        assert(b =~= seq![0x2eu8]);
    }
}

/// Being the same path is an equivalence.
pub proof fn law_same_path_is_equivalence(a: Seq<u8>, b: Seq<u8>, c: Seq<u8>)
    ensures
        same_path(a, a),
        same_path(a, b) ==> same_path(b, a),
        same_path(a, b) && same_path(b, c) ==> same_path(a, c),
{
}

/// Two files are the same if and only if they have the same name and are in the
/// same directory.
pub proof fn law_files_are_told_apart(
    dir: Seq<u8>,
    name: Seq<u8>,
    other_dir: Seq<u8>,
    other_name: Seq<u8>,
)
    requires
        dir.len() > 0,
        other_dir.len() > 0,
        name.len() > 0 && name != seq![0x2eu8] && !name.contains(0x2f),
        other_name.len() > 0 && other_name != seq![0x2eu8] && !other_name.contains(0x2f),
    ensures
        same_path(dir.push(0x2f) + name, other_dir.push(0x2f) + other_name) <==> name == other_name
            && same_path(dir, other_dir),
{
    let a = dir.push(0x2f) + name;
    let b = other_dir.push(0x2f) + other_name;
    law_components_of_parts(dir, name, name);
    law_components_of_parts(other_dir, other_name, other_name);
    assert(names(a) =~= names(dir).push(name));
    assert(names(b) =~= names(other_dir).push(other_name));
    assert(names(a).drop_last() =~= names(dir));
    assert(names(b).drop_last() =~= names(other_dir));
    assert(names(a).last() == name && names(b).last() == other_name);
    assert(a[0] == dir[0] && b[0] == other_dir[0]);
    if dir.len() > 1 {
        assert(a[1] == dir[1]);
    }
    if other_dir.len() > 1 {
        assert(b[1] == other_dir[1]);
    }
}

/// Repeated and trailing separators do not make another path, nor do single dots
/// behind the first component.
pub proof fn law_redundant_parts_are_ignored(dir: Seq<u8>, rest: Seq<u8>)
    requires
        dir.len() > 0,
    ensures
        same_path(dir.push(0x2f), dir),
        same_path(dir.push(0x2f).push(0x2f) + rest, dir.push(0x2f) + rest),
        same_path(dir.push(0x2f).push(0x2e).push(0x2f) + rest, dir.push(0x2f) + rest),
{
    let none = Seq::<u8>::empty();
    let dot = seq![0x2eu8];
    law_components_of_parts(dir, none, none);
    law_components_of_parts(dir, rest, dot);
    law_components_of_parts(dir.push(0x2f), rest, none);
    law_components_of_parts(dir.push(0x2f).push(0x2e), rest, none);
    law_components_of_parts(dir, dot, dot);
    assert(dir.push(0x2f) + none =~= dir.push(0x2f));
    assert(dir.push(0x2f) + dot =~= dir.push(0x2f).push(0x2e));
    assert(names(dir) + Seq::<Seq<u8>>::empty() =~= names(dir));
}

/// A list of paths holds the bytes of each path, in the same place.
pub proof fn law_paths_hold_their_bytes(list: Seq<Vec<u8>>)
    ensures
        path_views(list).len() == list.len(),
        forall|i: int| 0 <= i < list.len() ==> #[trigger] path_views(list)[i] == list[i]@,
{
}

} // verus!
