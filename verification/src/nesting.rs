//! What containment comes to on paths in canonical form: there, comparing
//! components is the same as asking whether one path is the other or
//! continues it after a separator.

use crate::sandbox::{components_of, is_rooted, lemma_segment_len, segment_len, within};
use vstd::prelude::*;

verus! {

/// Whether a path has the form that canonicalization gives: it starts at the
/// filesystem root, none of its components is empty, and no separator ends
/// it, unless it is `/` itself.
pub open spec fn is_canonical_form(path: Seq<char>) -> bool {
    &&& is_rooted(path)
    &&& forall|i: int|
        0 < i < path.len() && #[trigger] path[i] == '/' ==> path[i - 1] != '/' && i + 1
            < path.len()
}

/// Whether `path` is `root`, or is `root` continued by a separator and more.
pub open spec fn is_nested(root: Seq<char>, path: Seq<char>) -> bool {
    ||| path == root
    ||| {
        &&& 0 < root.len() < path.len()
        &&& path.take(root.len() as int) == root
        &&& (path[root.len() as int] == '/' || root.last() == '/')
    }
}

/// The path that has the given components: each comes after a separator.
pub open spec fn rendered(parts: Seq<Seq<char>>) -> Seq<char>
    decreases parts.len(),
{
    if parts.len() == 0 {
        Seq::empty()
    } else {
        seq!['/'] + parts[0] + rendered(parts.drop_first())
    }
}

proof fn lemma_rendered_concat(front: Seq<Seq<char>>, back: Seq<Seq<char>>)
    ensures
        rendered(front + back) == rendered(front) + rendered(back),
    decreases front.len(),
{
    if front.len() == 0 {
        assert(front + back =~= back);
        assert(rendered(front) + rendered(back) =~= rendered(back));
    } else {
        lemma_rendered_concat(front.drop_first(), back);
        assert((front + back).drop_first() =~= front.drop_first() + back);
        assert(rendered(front + back) =~= rendered(front) + rendered(back));
    }
}

proof fn lemma_segment_len_concat(front: Seq<char>, back: Seq<char>)
    requires
        segment_len(front) < front.len() || back.len() == 0 || back[0] == '/',
    ensures
        segment_len(front + back) == segment_len(front),
    decreases front.len(),
{
    if front.len() == 0 {
        assert(front + back =~= back);
    } else if front[0] != '/' {
        assert((front + back).drop_first() =~= front.drop_first() + back);
        lemma_segment_len_concat(front.drop_first(), back);
    }
}

/// Components on either side of a separator do not mix.
pub proof fn lemma_components_concat(front: Seq<char>, back: Seq<char>)
    requires
        front.len() == 0 || front.last() == '/' || back.len() == 0 || back[0] == '/',
    ensures
        components_of(front + back) == components_of(front) + components_of(back),
    decreases front.len(),
{
    let whole = front + back;
    if front.len() == 0 {
        assert(whole =~= back);
        assert(components_of(front) + components_of(back) =~= components_of(back));
    } else if front[0] == '/' {
        assert(whole.drop_first() =~= front.drop_first() + back);
        lemma_components_concat(front.drop_first(), back);
    } else {
        let n = segment_len(front);
        lemma_segment_len(front);
        lemma_segment_len_concat(front, back);
        lemma_segment_len(whole);
        assert(whole.take(n) =~= front.take(n));
        assert(whole.skip(n) =~= front.skip(n) + back);
        lemma_components_concat(front.skip(n), back);
        assert(components_of(whole) =~= components_of(front) + components_of(back));
    }
}

/// A path in canonical form, other than `/`, is its components written out.
proof fn lemma_canonical_is_rendered(path: Seq<char>)
    requires
        is_canonical_form(path),
        path.len() > 1,
    ensures
        rendered(components_of(path)) == path,
        components_of(path).len() > 0,
    decreases path.len(),
{
    let inner = path.drop_first();
    assert(path[1] != '/');
    assert(inner[0] == path[1]);
    let n = segment_len(inner);
    lemma_segment_len(inner);
    let first = inner.take(n);
    let rest = inner.skip(n);
    assert(components_of(path) == components_of(inner));
    assert(components_of(inner) == seq![first] + components_of(rest));
    let parts = components_of(path);
    assert(parts[0] == first);
    assert(parts.drop_first() =~= components_of(rest));
    if rest.len() > 0 {
        assert(rest[0] == inner[n]);
        assert(path[n + 1] == '/');
        assert forall|i: int| 0 < i < rest.len() && #[trigger] rest[i] == '/' implies rest[i - 1]
            != '/' && i + 1 < rest.len() by {
            assert(rest[i] == path[i + n + 1]);
            assert(rest[i - 1] == path[i + n]);
        }
        lemma_canonical_is_rendered(rest);
    }
    assert(rendered(components_of(rest)) == rest);
    assert(seq!['/'] + first + rest =~= path);
}

/// On paths in canonical form, containment is nesting: `path` lies within
/// `root` exactly if it is `root` or continues it after a separator.
pub proof fn lemma_within_is_nesting(root: Seq<char>, path: Seq<char>)
    requires
        is_canonical_form(root),
        is_canonical_form(path),
    ensures
        within(root, path) == is_nested(root, path),
{
    let root_parts = components_of(root);
    let path_parts = components_of(path);
    if is_nested(root, path) {
        if path == root {
            assert(root_parts.subrange(0, root_parts.len() as int) =~= root_parts);
        } else {
            let more = path.skip(root.len() as int);
            assert(root + more =~= path);
            assert(more[0] == path[root.len() as int]);
            lemma_components_concat(root, more);
            assert((root_parts + components_of(more)).subrange(0, root_parts.len() as int)
                =~= root_parts);
        }
    }
    if within(root, path) {
        if root.len() == 1 {
            assert(path.take(1) =~= root);
            if path.len() == 1 {
                assert(path =~= root);
            }
        } else {
            lemma_canonical_is_rendered(root);
            assert(root_parts =~= path_parts.subrange(0, root_parts.len() as int));
            if path.len() > 1 {
                lemma_canonical_is_rendered(path);
                let more = path_parts.skip(root_parts.len() as int);
                assert(root_parts + more =~= path_parts);
                lemma_rendered_concat(root_parts, more);
                if more.len() == 0 {
                    assert(rendered(more) =~= Seq::<char>::empty());
                    assert(path =~= root);
                } else {
                    assert(rendered(more)[0] == '/');
                    assert(path.take(root.len() as int) =~= root);
                    assert(path[root.len() as int] == rendered(more)[0]);
                }
            } else {
                assert(path.len() == 1 && path[0] == '/');
                assert(path.drop_first().len() == 0);
                assert(components_of(path.drop_first()).len() == 0);
                assert(path_parts == components_of(path.drop_first()));
            }
        }
    }
}

} // verus!
