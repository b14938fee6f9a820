//! The path sandbox: from a request target to a path under the root, and the
//! containment test that decides whether a canonical path may be served.
//!
//! Canonicalizing a path needs the filesystem, so it happens between the two
//! halves of this module: `candidate_path` says which path to canonicalize,
//! and `resolve` judges what came back.

use crate::codec::{decode_url_encoded, decoded_text};
use crate::text::to_chars;
use vstd::prelude::*;

verus! {

/// Why a request target was not resolved to a path.
#[derive(Clone, Copy, Debug, PartialEq, Eq, Structural)]
pub enum Rejected {
    /// The canonical path lies outside the root.
    Forbidden,
    /// The path could not be canonicalized: nothing is there.
    NotFound,
}

/// A decoded target without its one leading separator, if it has one.
pub open spec fn relative_of(decoded: Seq<char>) -> Seq<char> {
    if decoded.len() > 0 && decoded[0] == '/' {
        decoded.drop_first()
    } else {
        decoded
    }
}

/// `relative` joined onto `root`: an absolute `relative` stands alone,
/// anything else follows the root, after a separator where the root does not
/// end in one.
pub open spec fn joined(root: Seq<char>, relative: Seq<char>) -> Seq<char> {
    if relative.len() > 0 && relative[0] == '/' {
        relative
    } else if root.len() == 0 || root.last() == '/' {
        root + relative
    } else {
        root + seq!['/'] + relative
    }
}

/// The path that a request target names under `root`, before
/// canonicalization.
pub open spec fn candidate_of(root: Seq<char>, target: Seq<char>) -> Seq<char> {
    joined(root, relative_of(decoded_text(target)))
}

/// The length of the run of characters other than `/` at the start of `path`.
pub open spec fn segment_len(path: Seq<char>) -> int
    decreases path.len(),
{
    if path.len() > 0 && path[0] != '/' {
        1 + segment_len(path.drop_first())
    } else {
        0
    }
}

/// The components of a path: its maximal runs of characters other than `/`.
pub open spec fn components_of(path: Seq<char>) -> Seq<Seq<char>>
    decreases path.len(),
{
    if path.len() == 0 {
        seq![]
    } else if path[0] == '/' {
        components_of(path.drop_first())
    } else {
        proof {
            lemma_segment_len(path);
        }
        let n = segment_len(path);
        seq![path.take(n)] + components_of(path.skip(n))
    }
}

/// Whether a path starts at the filesystem root.
pub open spec fn is_rooted(path: Seq<char>) -> bool {
    path.len() > 0 && path[0] == '/'
}

/// Whether `path` is `root` or lies under it, component by component. Both
/// are meant to be canonical: a `..` in either is compared like any name.
pub open spec fn within(root: Seq<char>, path: Seq<char>) -> bool {
    &&& is_rooted(root) == is_rooted(path)
    &&& components_of(root).is_prefix_of(components_of(path))
}

/// A leading segment ends at the first separator or at the end of the path,
/// and holds no separator itself.
pub proof fn lemma_segment_len(path: Seq<char>)
    ensures
        0 <= segment_len(path) <= path.len(),
        path.len() > 0 && path[0] != '/' ==> segment_len(path) > 0,
        forall|i: int| 0 <= i < segment_len(path) ==> path[i] != '/',
        segment_len(path) < path.len() ==> path[segment_len(path)] == '/',
    decreases path.len(),
{
    if path.len() > 0 && path[0] != '/' {
        let rest = path.drop_first();
        lemma_segment_len(rest);
        assert forall|i: int| 0 <= i < segment_len(path) implies path[i] != '/' by {
            if i > 0 {
                assert(path[i] == rest[i - 1]);
            }
        }
    }
}

/// Every path lies within itself.
pub proof fn lemma_within_reflexive(path: Seq<char>)
    ensures
        within(path, path),
{
    let parts = components_of(path);
    assert(parts.subrange(0, parts.len() as int) =~= parts);
}

/// What lies within a directory lies within whatever that directory lies
/// within.
pub proof fn lemma_within_transitive(outer: Seq<char>, inner: Seq<char>, path: Seq<char>)
    requires
        within(outer, inner),
        within(inner, path),
    ensures
        within(outer, path),
{
    let a = components_of(outer);
    let b = components_of(inner);
    let c = components_of(path);
    assert(a =~= b.subrange(0, a.len() as int));
    assert(b =~= c.subrange(0, b.len() as int));
    assert(a =~= c.subrange(0, a.len() as int));
}

/// The characters of `chars` from `from` up to `to`.
fn copy_range(chars: &Vec<char>, from: usize, to: usize) -> (out: Vec<char>)
    requires
        from <= to <= chars.len(),
    ensures
        out@ == chars@.subrange(from as int, to as int),
{
    let mut out: Vec<char> = Vec::new();
    let mut i: usize = from;
    while i < to
        invariant
            from <= i <= to <= chars.len(),
            out@ == chars@.subrange(from as int, i as int),
        decreases to - i,
    {
        out.push(chars[i]);
        assert(chars@.subrange(from as int, i + 1) =~= chars@.subrange(from as int, i as int).push(
            chars@[i as int],
        ));
        i += 1;
    }
    out
}

fn same_chars(left: &Vec<char>, right: &Vec<char>) -> (same: bool)
    ensures
        same == (left@ == right@),
{
    if left.len() != right.len() {
        return false;
    }
    let mut i: usize = 0;
    while i < left.len()
        invariant
            i <= left.len(),
            left.len() == right.len(),
            left@.take(i as int) == right@.take(i as int),
        decreases left.len() - i,
    {
        if left[i] != right[i] {
            return false;
        }
        assert(left@.take(i + 1) =~= left@.take(i as int).push(left@[i as int]));
        assert(right@.take(i + 1) =~= right@.take(i as int).push(right@[i as int]));
        i += 1;
    }
    assert(left@ =~= left@.take(i as int));
    assert(right@ =~= right@.take(i as int));
    true
}

/// The text of each part, in order.
spec fn texts(parts: Seq<Vec<char>>) -> Seq<Seq<char>> {
    Seq::new(parts.len(), |i: int| parts[i]@)
}

/// Splits a path into its components.
fn components(path: &str) -> (parts: Vec<Vec<char>>)
    ensures
        texts(parts@) == components_of(path@),
{
    let chars = to_chars(path);
    let mut parts: Vec<Vec<char>> = Vec::new();
    let mut i: usize = 0;
    assert(chars@.skip(0) =~= chars@);
    assert(texts(parts@) =~= Seq::<Seq<char>>::empty());
    while i < chars.len()
        invariant
            i <= chars.len(),
            components_of(chars@) == texts(parts@) + components_of(chars@.skip(i as int)),
        decreases chars.len() - i,
    {
        let ghost rest = chars@.skip(i as int);
        if chars[i] == '/' {
            assert(rest.drop_first() =~= chars@.skip(i + 1));
            i += 1;
        } else {
            let start = i;
            while i < chars.len() && chars[i] != '/'
                invariant
                    start <= i <= chars.len(),
                    rest == chars@.skip(start as int),
                    segment_len(rest) == (i - start) + segment_len(chars@.skip(i as int)),
                decreases chars.len() - i,
            {
                assert(chars@.skip(i as int).drop_first() =~= chars@.skip(i + 1));
                i += 1;
            }
            let part = copy_range(&chars, start, i);
            proof {
                assert(segment_len(chars@.skip(i as int)) == 0);
                assert(rest.take(i - start) =~= part@);
                assert(rest.skip(i - start) =~= chars@.skip(i as int));
                let before = texts(parts@);
                assert(before.push(part@) =~= before + seq![part@]);
            }
            let ghost before = texts(parts@);
            parts.push(part);
            assert(texts(parts@) =~= before.push(part@));
        }
    }
    assert(components_of(chars@.skip(i as int)) =~= Seq::<Seq<char>>::empty());
    parts
}

/// Whether the canonical `path` is `root` itself or lies under it. Whole
/// components are compared, so `/srv/www2` is not under `/srv/www`.
pub fn is_path_within_root(root: &str, path: &str) -> (inside: bool)
    ensures
        inside == within(root@, path@),
{
    let root_chars = to_chars(root);
    let path_chars = to_chars(path);
    let root_rooted = root_chars.len() > 0 && root_chars[0] == '/';
    let path_rooted = path_chars.len() > 0 && path_chars[0] == '/';
    if root_rooted != path_rooted {
        return false;
    }
    let root_parts = components(root);
    let path_parts = components(path);
    if root_parts.len() > path_parts.len() {
        return false;
    }
    let ghost want = components_of(root@);
    let ghost have = components_of(path@);
    let mut i: usize = 0;
    while i < root_parts.len()
        invariant
            i <= root_parts.len() <= path_parts.len(),
            texts(root_parts@) == want,
            texts(path_parts@) == have,
            want == components_of(root@),
            have == components_of(path@),
            want.take(i as int) == have.take(i as int),
        decreases root_parts.len() - i,
    {
        assert(want[i as int] == root_parts[i as int]@);
        assert(have[i as int] == path_parts[i as int]@);
        if !same_chars(&root_parts[i], &path_parts[i]) {
            assert(want[i as int] != have.subrange(0, want.len() as int)[i as int]);
            return false;
        }
        assert(want.take(i + 1) =~= want.take(i as int).push(want[i as int]));
        assert(have.take(i + 1) =~= have.take(i as int).push(have[i as int]));
        i += 1;
    }
    assert(want =~= want.take(i as int));
    assert(have.subrange(0, want.len() as int) =~= have.take(i as int));
    true
}

/// Strips the one leading separator of a decoded target. The target `/`
/// becomes the empty path, which names the root itself.
pub fn relative_target(decoded: &str) -> (relative: &str)
    ensures
        relative@ == relative_of(decoded@),
{
    let len = decoded.unicode_len();
    if len > 0 && decoded.get_char(0) == '/' {
        decoded.substring_char(1, len)
    } else {
        decoded
    }
}

/// Joins a relative path onto the root.
pub fn join(root: &str, relative: &str) -> (path: String)
    ensures
        path@ == joined(root@, relative@),
{
    let relative_len = relative.unicode_len();
    if relative_len > 0 && relative.get_char(0) == '/' {
        return relative.to_owned();
    }
    let root_len = root.unicode_len();
    let mut path = root.to_owned();
    if root_len > 0 && root.get_char(root_len - 1) != '/' {
        proof {
            reveal_strlit("/");
        }
        path.append("/");
        assert(path@ =~= root@ + seq!['/']);
    }
    path.append(relative);
    path
}

/// The path to canonicalize for a request target: the target is decoded,
/// loses its leading separator and is joined onto the root. The result may
/// well point outside the root; `resolve` judges its canonical form.
pub fn candidate_path(root: &str, target: &str) -> (candidate: String)
    ensures
        candidate@ == candidate_of(root@, target@),
{
    let decoded = decode_url_encoded(target);
    join(root, relative_target(decoded.as_str()))
}

/// What resolving a target comes to, given what canonicalizing its candidate
/// path gave: `None` where nothing is there.
pub open spec fn resolved(root: Seq<char>, canonical: Option<Seq<char>>) -> Result<
    Seq<char>,
    Rejected,
> {
    match canonical {
        None => Err(Rejected::NotFound),
        Some(path) => if within(root, path) {
            Ok(path)
        } else {
            Err(Rejected::Forbidden)
        },
    }
}

/// Containment: resolution never hands out a path outside the root. Whatever
/// the target was and whatever canonicalizing made of it, the outcome is a
/// path within the root, `Forbidden` or `NotFound`.
pub proof fn lemma_resolved_within_root(root: Seq<char>, canonical: Option<Seq<char>>)
    ensures
        match resolved(root, canonical) {
            Ok(path) => canonical == Some(path) && within(root, path),
            Err(Rejected::Forbidden) => canonical is Some && !within(root, canonical->0),
            Err(Rejected::NotFound) => canonical is None,
        },
{
}

/// Judges a canonicalized candidate: a path is handed out only if it is the
/// canonical root or lies under it.
pub fn resolve(root: &str, canonical: Option<&str>) -> (outcome: Result<String, Rejected>)
    ensures
        match resolved(
            root@,
            match canonical {
                Some(path) => Some(path@),
                None => None,
            },
        ) {
            Ok(path) => outcome is Ok && outcome->Ok_0@ == path,
            Err(rejected) => outcome == Err::<String, Rejected>(rejected),
        },
        outcome is Ok ==> within(root@, outcome->Ok_0@),
{
    match canonical {
        None => Err(Rejected::NotFound),
        Some(path) => {
            if is_path_within_root(root, path) {
                Ok(path.to_owned())
            } else {
                Err(Rejected::Forbidden)
            }
        },
    }
}

} // verus!
