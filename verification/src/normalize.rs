//! Normalisation of a listed path into an asset path: forward slashes only,
//! and the prefix of the asset root stripped.

use vstd::prelude::*;
use crate::text::{chars_of, string_of};

verus! {

/// The prefix of the asset root in a listed path: `./assets/`.
pub open spec fn root_marker() -> Seq<char> {
    seq!['.', '/', 'a', 's', 's', 'e', 't', 's', '/']
}

/// `path` with every backslash turned into a forward slash.
pub open spec fn with_forward_slashes(path: Seq<char>) -> Seq<char> {
    Seq::new(path.len(), |i: int| if path[i] == '\\' { '/' } else { path[i] })
}

/// `path` without `prefix` where it begins with it, and as it is otherwise.
/// One prefix is taken off, and nothing behind it.
pub open spec fn without_prefix(path: Seq<char>, prefix: Seq<char>) -> Seq<char> {
    if prefix.is_prefix_of(path) {
        path.skip(prefix.len() as int)
    } else {
        path
    }
}

/// The asset path that stands for the listed path `path`: its separators
/// are forward slashes, and the prefix of the asset root is stripped.
pub open spec fn normalized(path: Seq<char>) -> Seq<char> {
    without_prefix(with_forward_slashes(path), root_marker())
}

/// `path` is an asset path: it holds no backslash and does not begin with
/// the prefix of the asset root.
pub open spec fn is_asset_path(path: Seq<char>) -> bool {
    !path.contains('\\') && !root_marker().is_prefix_of(path)
}

/// `path` was listed under the asset root: with forward slashes it begins
/// with the prefix of the root.
pub open spec fn is_rooted(path: Seq<char>) -> bool {
    root_marker().is_prefix_of(with_forward_slashes(path))
}

/// `path` names the asset root twice in a row at its start, as no listing of
/// a directory does: the entry behind the root would be called `.`.
pub open spec fn is_doubly_rooted(path: Seq<char>) -> bool {
    (root_marker() + root_marker()).is_prefix_of(with_forward_slashes(path))
}

/// Tells whether `path` begins with `prefix`.
fn begins_with(path: &Vec<char>, prefix: &Vec<char>) -> (found: bool)
    ensures
        found == prefix@.is_prefix_of(path@),
{
    if path.len() < prefix.len() {
        return false;
    }
    let mut k: usize = 0;
    while k < prefix.len()
        invariant
            k <= prefix.len() <= path.len(),
            forall|j: int| 0 <= j < k ==> path@[j] == prefix@[j],
        decreases prefix.len() - k,
    {
        if path[k] != prefix[k] {
            assert(path@.subrange(0, prefix@.len() as int)[k as int] != prefix@[k as int]);
            return false;
        }
        k += 1;
    }
    assert(prefix@ =~= path@.subrange(0, prefix@.len() as int));
    true
}

/// `path` with every backslash turned into a forward slash.
fn forward_slashes(path: &Vec<char>) -> (out: Vec<char>)
    ensures
        out@ == with_forward_slashes(path@),
{
    let mut out: Vec<char> = Vec::new();
    let mut i: usize = 0;
    while i < path.len()
        invariant
            i <= path.len(),
            out@ == with_forward_slashes(path@).take(i as int),
        decreases path.len() - i,
    {
        let c = path[i];
        out.push(if c == '\\' { '/' } else { c });
        i += 1;
    }
    out
}

/// `path` without `prefix` where it begins with it.
fn strip_prefix(path: &Vec<char>, prefix: &Vec<char>) -> (out: Vec<char>)
    ensures
        out@ == without_prefix(path@, prefix@),
{
    let mut out: Vec<char> = Vec::new();
    let mut i: usize = if begins_with(path, prefix) {
        prefix.len()
    } else {
        0
    };
    let ghost from = i;
    while i < path.len()
        invariant
            from <= i <= path.len(),
            out@ == path@.subrange(from as int, i as int),
        decreases path.len() - i,
    {
        out.push(path[i]);
        i += 1;
    }
    assert(path@.subrange(from as int, path@.len() as int) =~= path@.skip(from as int));
    assert(path@.skip(0) =~= path@);
    out
}

/// Normalises a listed path: backslashes become forward slashes, then the
/// prefix `./assets/` is stripped where the path begins with it.
pub fn normalize_path(path: &str) -> (out: String)
    ensures
        out@ == normalized(path@),
{
    let marker = chars_of("./assets/");
    proof {
        reveal_strlit("./assets/");
        assert(marker@ =~= root_marker());
    }
    let slashed = forward_slashes(&chars_of(path));
    string_of(&strip_prefix(&slashed, &marker))
}

/// Normalises each of the listed paths, in order.
pub fn normalize_paths(files: &Vec<String>) -> (paths: Vec<String>)
    ensures
        paths.deep_view() == files.deep_view().map_values(|path: Seq<char>| normalized(path)),
{
    let mut paths: Vec<String> = Vec::new();
    let mut i: usize = 0;
    let ghost wanted = files.deep_view().map_values(|path: Seq<char>| normalized(path));
    assert(paths.deep_view() =~= wanted.take(0));
    while i < files.len()
        invariant
            i <= files.len(),
            wanted == files.deep_view().map_values(|path: Seq<char>| normalized(path)),
            paths.deep_view() == wanted.take(i as int),
        decreases files.len() - i,
    {
        let ghost before = paths.deep_view();
        paths.push(normalize_path(files[i].as_str()));
        assert(paths.deep_view() =~= before.push(normalized(files[i as int]@)));
        assert(wanted.take(i + 1) =~= wanted.take(i as int).push(wanted[i as int]));
        i += 1;
    }
    assert(wanted.take(i as int) =~= wanted);
    paths
}

/// A path with forward slashes only holds no backslash, and turning its
/// backslashes into forward slashes leaves it as it is.
pub proof fn lemma_forward_slashes_once(path: Seq<char>)
    ensures
        !with_forward_slashes(path).contains('\\'),
        !path.contains('\\') ==> with_forward_slashes(path) == path,
        with_forward_slashes(with_forward_slashes(path)) == with_forward_slashes(path),
{
    let slashed = with_forward_slashes(path);
    assert forall|i: int| 0 <= i < slashed.len() implies slashed[i] != '\\' by {}
    if !path.contains('\\') {
        assert forall|i: int| 0 <= i < path.len() implies path[i] != '\\' by {
            assert(path.contains(path[i]));
        }
        assert(slashed =~= path);
    }
    assert(with_forward_slashes(slashed) =~= slashed);
}

/// No normalised path holds a backslash.
pub proof fn lemma_normalized_has_no_backslash(path: Seq<char>)
    ensures
        !normalized(path).contains('\\'),
{
    lemma_forward_slashes_once(path);
    let slashed = with_forward_slashes(path);
    let out = normalized(path);
    if out.contains('\\') {
        let k = choose|k: int| 0 <= k < out.len() && out[k] == '\\';
        if root_marker().is_prefix_of(slashed) {
            assert(slashed[k + root_marker().len()] == '\\');
        }
        assert(slashed.contains('\\'));
    }
}

/// An asset path comes back from normalisation unchanged.
pub proof fn lemma_asset_path_unchanged(path: Seq<char>)
    requires
        is_asset_path(path),
    ensures
        normalized(path) == path,
{
    lemma_forward_slashes_once(path);
}

/// What normalisation returns is an asset path, for every path but one that
/// names the asset root twice in a row at its start; for such a path it is
/// none.
pub proof fn lemma_normalized_is_asset_path(path: Seq<char>)
    ensures
        is_asset_path(normalized(path)) <==> !is_doubly_rooted(path),
{
    lemma_normalized_has_no_backslash(path);
    let marker = root_marker();
    let slashed = with_forward_slashes(path);
    let twice = marker + marker;
    if marker.is_prefix_of(slashed) {
        let rest = slashed.skip(marker.len() as int);
        if marker.is_prefix_of(rest) {
            assert(twice =~= slashed.subrange(0, twice.len() as int)) by {
                assert forall|i: int| 0 <= i < twice.len() implies twice[i] == slashed[i] by {
                    if i < marker.len() {
                        assert(marker[i] == slashed.subrange(0, marker.len() as int)[i]);
                    } else {
                        assert(marker[i - marker.len()] == rest.subrange(
                            0,
                            marker.len() as int,
                        )[i - marker.len()]);
                    }
                }
            }
        }
        if twice.is_prefix_of(slashed) {
            assert(marker =~= rest.subrange(0, marker.len() as int)) by {
                assert forall|i: int| 0 <= i < marker.len() implies marker[i] == rest[i] by {
                    assert(twice[i + marker.len()] == slashed.subrange(0, twice.len() as int)[i
                        + marker.len()]);
                }
            }
        }
    } else {
        if twice.is_prefix_of(slashed) {
            assert(marker =~= slashed.subrange(0, marker.len() as int)) by {
                assert forall|i: int| 0 <= i < marker.len() implies marker[i] == slashed[i] by {
                    assert(twice[i] == slashed.subrange(0, twice.len() as int)[i]);
                }
            }
        }
    }
}

/// The asset path of a path listed under the asset root is that path
/// relative to the root: the prefix of the root and the asset path make up
/// the listed path, with forward slashes.
pub proof fn lemma_normalized_is_root_relative(path: Seq<char>)
    requires
        is_rooted(path),
    ensures
        root_marker() + normalized(path) == with_forward_slashes(path),
{
    let slashed = with_forward_slashes(path);
    assert(root_marker() + slashed.skip(root_marker().len() as int) =~= slashed);
}

/// Normalising is idempotent: what normalisation returns comes back from
/// normalisation unchanged. This holds of every path but one that names the
/// asset root twice in a row at its start.
pub proof fn lemma_normalize_idempotent(path: Seq<char>)
    requires
        !is_doubly_rooted(path),
    ensures
        normalized(normalized(path)) == normalized(path),
{
    lemma_normalized_is_asset_path(path);
    lemma_asset_path_unchanged(normalized(path));
}

/// Two paths listed under the asset root, neither with a backslash, that
/// have the same asset path are the same path.
pub proof fn lemma_normalized_injective(first: Seq<char>, second: Seq<char>)
    requires
        is_rooted(first),
        is_rooted(second),
        !first.contains('\\'),
        !second.contains('\\'),
        normalized(first) == normalized(second),
    ensures
        first == second,
{
    lemma_forward_slashes_once(first);
    lemma_forward_slashes_once(second);
    lemma_normalized_is_root_relative(first);
    lemma_normalized_is_root_relative(second);
}

} // verus!
