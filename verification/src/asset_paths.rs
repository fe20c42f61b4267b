//! The path enumerator: a depth-first walk over a directory tree that yields
//! the manifest of the files under it.

use vstd::prelude::*;
use crate::normalize::{
    is_asset_path, is_doubly_rooted, is_rooted, lemma_normalize_idempotent,
    lemma_normalized_injective, lemma_normalized_is_asset_path, normalize_paths, normalized,
};

verus! {

/// One entry of a directory tree, as a listing of the file system gave it.
#[derive(Debug, PartialEq, Eq)]
pub enum FsNode {
    /// An entry that is not a directory, with the path under which it was listed.
    File(String),
    /// A directory, with its entries in the order of the listing.
    Dir(Vec<FsNode>),
    /// A directory whose listing failed.
    Unreadable,
    /// A path at which nothing was found.
    Missing,
}

/// Why a tree could not be enumerated.
#[derive(Clone, Copy, Debug, PartialEq, Eq, Structural)]
pub enum WalkError {
    /// Nothing was found at the root, or at an entry that should be walked.
    Missing,
    /// A directory could not be listed.
    Unreadable,
}

/// The paths of the files under `node` as they were listed, in the order of a
/// depth-first walk, or the first failure that the walk meets. A node that
/// is not a directory has nothing under it.
pub open spec fn listed_files(node: FsNode) -> Result<Seq<Seq<char>>, WalkError>
    decreases node, 0nat,
{
    match node {
        FsNode::File(_) => Ok(Seq::empty()),
        FsNode::Dir(entries) => listed_in(entries@, entries@.len()),
        FsNode::Unreadable => Err(WalkError::Unreadable),
        FsNode::Missing => Err(WalkError::Missing),
    }
}

/// What the first `n` entries of a listing contribute to the walk.
pub open spec fn listed_in(entries: Seq<FsNode>, n: nat) -> Result<Seq<Seq<char>>, WalkError>
    decreases entries, n,
{
    if n == 0 || n > entries.len() {
        Ok(Seq::empty())
    } else {
        match listed_in(entries, (n - 1) as nat) {
            Err(e) => Err(e),
            Ok(before) => match entries[n - 1] {
                FsNode::File(path) => Ok(before.push(path@)),
                other => match listed_files(other) {
                    Err(e) => Err(e),
                    Ok(inner) => Ok(before + inner),
                },
            },
        }
    }
}

/// The manifest of `node`: the asset path of each file under it, in the
/// order of the walk.
pub open spec fn manifest_of(node: FsNode) -> Result<Seq<Seq<char>>, WalkError> {
    match listed_files(node) {
        Err(e) => Err(e),
        Ok(files) => Ok(files.map_values(|path: Seq<char>| normalized(path))),
    }
}

/// The outcome of a walk as the contracts speak of it: the paths by their
/// characters.
pub open spec fn walk_view(outcome: Result<Vec<String>, WalkError>) -> Result<
    Seq<Seq<char>>,
    WalkError,
> {
    match outcome {
        Ok(files) => Ok(files.deep_view()),
        Err(e) => Err(e),
    }
}

/// A failure among the first `n` entries is the failure of the whole listing.
proof fn lemma_failure_stays(entries: Seq<FsNode>, n: nat, m: nat)
    requires
        n <= m <= entries.len(),
        listed_in(entries, n) is Err,
    ensures
        listed_in(entries, m) == listed_in(entries, n),
    decreases m,
{
    if n < m {
        lemma_failure_stays(entries, n, (m - 1) as nat);
    }
}

/// Lists the files under `node` by the paths under which they were listed.
pub fn read_files_recursive(node: &FsNode) -> (outcome: Result<Vec<String>, WalkError>)
    ensures
        walk_view(outcome) == listed_files(*node),
    decreases node,
{
    let mut files: Vec<String> = Vec::new();
    match node {
        FsNode::File(_) => {
            assert(files.deep_view() =~= Seq::<Seq<char>>::empty());
            Ok(files)
        },
        FsNode::Unreadable => Err(WalkError::Unreadable),
        FsNode::Missing => Err(WalkError::Missing),
        FsNode::Dir(entries) => {
            let mut i: usize = 0;
            assert(files.deep_view() =~= Seq::<Seq<char>>::empty());
            while i < entries.len()
                invariant
                    i <= entries.len(),
                    *node == FsNode::Dir(*entries),
                    listed_in(entries@, i as nat) == Ok::<Seq<Seq<char>>, WalkError>(
                        files.deep_view(),
                    ),
                decreases entries.len() - i,
            {
                let ghost before = files.deep_view();
                match &entries[i] {
                    FsNode::File(path) => {
                        files.push(path.clone());
                        assert(files.deep_view() =~= before.push(path@));
                    },
                    other => {
                        match read_files_recursive(other) {
                            Err(e) => {
                                proof {
                                    lemma_failure_stays(
                                        entries@,
                                        (i + 1) as nat,
                                        entries@.len(),
                                    );
                                }
                                return Err(e);
                            },
                            Ok(mut inner) => {
                                let ghost added = inner.deep_view();
                                files.append(&mut inner);
                                assert(files.deep_view() =~= before + added);
                            },
                        }
                    },
                }
                i += 1;
            }
            Ok(files)
        },
    }
}

/// Walks the tree under `node` depth first and gives the asset path of each
/// file in it, or the first failure that the walk meets.
pub fn load_asset_paths_recursive(node: &FsNode) -> (outcome: Result<Vec<String>, WalkError>)
    ensures
        walk_view(outcome) == manifest_of(*node),
{
    match read_files_recursive(node) {
        Err(e) => Err(e),
        Ok(files) => Ok(normalize_paths(&files)),
    }
}

/// Enumerates the asset root `root`: the manifest holds the asset path of
/// each file at any depth under it, in the order of the walk, and nothing for
/// a directory. A root at which nothing was found, or a directory in the tree
/// that could not be listed, is a failure and never an empty manifest.
pub fn load_asset_paths(root: &FsNode) -> (outcome: Result<Vec<String>, WalkError>)
    ensures
        walk_view(outcome) == manifest_of(*root),
        *root is Missing ==> outcome == Err::<Vec<String>, WalkError>(WalkError::Missing),
        *root matches FsNode::Dir(entries) && entries@.len() == 0 ==> outcome is Ok
            && outcome->Ok_0@.len() == 0,
{
    let outcome = load_asset_paths_recursive(root);
    proof {
        if root is Dir && root->Dir_0@.len() == 0 {
            assert(outcome->Ok_0.deep_view().len() == 0);
        }
    }
    outcome
}


/// `path` is the listed path of a file at some depth under the directory
/// `node`.
pub open spec fn file_under(node: FsNode, path: Seq<char>) -> bool
    decreases node, 0nat,
{
    match node {
        FsNode::Dir(entries) => exists|i: int|
            0 <= i < entries@.len() && holds_file(#[trigger] entries@[i], path),
        _ => false,
    }
}

/// The entry `entry` is the file listed as `path`, or a directory that has
/// that file under it.
pub open spec fn holds_file(entry: FsNode, path: Seq<char>) -> bool
    decreases entry, 1nat,
{
    match entry {
        FsNode::File(listed) => listed@ == path,
        other => file_under(other, path),
    }
}

/// The first `n` entries of a listing, where they can be walked, contribute
/// the files that they hold and nothing else.
proof fn lemma_listed_in_is_file_set(entries: Seq<FsNode>, n: nat)
    requires
        n <= entries.len(),
        listed_in(entries, n) is Ok,
    ensures
        forall|path: Seq<char>|
            listed_in(entries, n)->Ok_0.contains(path) <==> exists|i: int|
                0 <= i < n && holds_file(#[trigger] entries[i], path),
    decreases entries, n,
{
    let files = listed_in(entries, n)->Ok_0;
    if n == 0 {
    } else {
        let before = listed_in(entries, (n - 1) as nat)->Ok_0;
        let last = entries[n - 1];
        lemma_listed_in_is_file_set(entries, (n - 1) as nat);
        match last {
            FsNode::File(listed) => {
                assert forall|path: Seq<char>| files.contains(path) implies exists|i: int|
                    0 <= i < n && holds_file(#[trigger] entries[i], path) by {
                    let k = choose|k: int| 0 <= k < files.len() && files[k] == path;
                    if k < before.len() {
                        assert(before[k] == path);
                        assert(before.contains(path));
                    } else {
                        assert(holds_file(entries[n - 1], path));
                    }
                }
                assert forall|path: Seq<char>|
                    (exists|i: int| 0 <= i < n && holds_file(#[trigger] entries[i], path))
                    implies files.contains(path) by {
                    let i = choose|i: int| 0 <= i < n && holds_file(#[trigger] entries[i], path);
                    if i < n - 1 {
                        assert(before.contains(path));
                        let k = choose|k: int| 0 <= k < before.len() && before[k] == path;
                        assert(files[k] == path);
                    } else {
                        assert(files[before.len() as int] == path);
                    }
                }
            },
            other => {
                let inner = listed_files(other)->Ok_0;
                lemma_listing_is_file_set(other);
                assert forall|path: Seq<char>| files.contains(path) implies exists|i: int|
                    0 <= i < n && holds_file(#[trigger] entries[i], path) by {
                    let k = choose|k: int| 0 <= k < files.len() && files[k] == path;
                    if k < before.len() {
                        assert(before[k] == path);
                        assert(before.contains(path));
                    } else {
                        assert(inner[k - before.len()] == path);
                        assert(inner.contains(path));
                        assert(file_under(other, path));
                        assert(holds_file(last, path));
                    }
                }
                assert forall|path: Seq<char>|
                    (exists|i: int| 0 <= i < n && holds_file(#[trigger] entries[i], path))
                    implies files.contains(path) by {
                    let i = choose|i: int| 0 <= i < n && holds_file(#[trigger] entries[i], path);
                    if i < n - 1 {
                        assert(before.contains(path));
                        let k = choose|k: int| 0 <= k < before.len() && before[k] == path;
                        assert(files[k] == path);
                    } else {
                        assert(holds_file(last, path));
                        assert(file_under(other, path));
                        assert(inner.contains(path));
                        let k = choose|k: int| 0 <= k < inner.len() && inner[k] == path;
                        assert(files[before.len() + k] == path);
                    }
                }
            },
        }
    }
}

/// The walk lists exactly the files of the tree: a path is in the listing of
/// a directory that can be walked if and only if a file at some depth under
/// it was listed under that path. Directories contribute no entry of their
/// own.
pub proof fn lemma_listing_is_file_set(node: FsNode)
    requires
        listed_files(node) is Ok,
    ensures
        forall|path: Seq<char>|
            listed_files(node)->Ok_0.contains(path) <==> file_under(node, path),
    decreases node, 0nat,
{
    match node {
        FsNode::Dir(entries) => {
            lemma_listed_in_is_file_set(entries@, entries@.len());
        },
        _ => {
            assert forall|path: Seq<char>| !listed_files(node)->Ok_0.contains(path) by {}
        },
    }
}

/// The manifest, as a set, is the set of the asset paths of the files of the
/// tree: an asset path is in the manifest of a directory that can be walked
/// if and only if it is the normalised path of a file at some depth under it.
pub proof fn lemma_manifest_is_file_set(node: FsNode)
    requires
        manifest_of(node) is Ok,
    ensures
        forall|asset: Seq<char>|
            manifest_of(node)->Ok_0.contains(asset) <==> exists|path: Seq<char>|
                #[trigger] file_under(node, path) && normalized(path) == asset,
{
    let files = listed_files(node)->Ok_0;
    let manifest = manifest_of(node)->Ok_0;
    lemma_listing_is_file_set(node);
    assert forall|asset: Seq<char>| manifest.contains(asset) implies exists|path: Seq<char>|
        #[trigger] file_under(node, path) && normalized(path) == asset by {
        let k = choose|k: int| 0 <= k < manifest.len() && manifest[k] == asset;
        assert(files.contains(files[k]));
        assert(file_under(node, files[k]));
    }
    assert forall|asset: Seq<char>|
        (exists|path: Seq<char>| #[trigger] file_under(node, path) && normalized(path) == asset)
        implies manifest.contains(asset) by {
        let path = choose|path: Seq<char>| #[trigger]
            file_under(node, path) && normalized(path) == asset;
        assert(files.contains(path));
        let k = choose|k: int| 0 <= k < files.len() && files[k] == path;
        assert(manifest[k] == asset);
    }
}

/// Every entry of the manifest is an asset path, with no backslash and
/// without the prefix of the asset root at its start, and normalisation
/// leaves it as it is. This holds of every tree in which no file is listed
/// with the asset root twice in a row at the start of its path.
pub proof fn lemma_manifest_entries_are_asset_paths(node: FsNode)
    requires
        manifest_of(node) is Ok,
        forall|path: Seq<char>| #[trigger] file_under(node, path) ==> !is_doubly_rooted(path),
    ensures
        forall|i: int|
            0 <= i < manifest_of(node)->Ok_0.len() ==> is_asset_path(
                #[trigger] manifest_of(node)->Ok_0[i],
            ) && normalized(manifest_of(node)->Ok_0[i]) == manifest_of(node)->Ok_0[i],
{
    let files = listed_files(node)->Ok_0;
    let manifest = manifest_of(node)->Ok_0;
    lemma_listing_is_file_set(node);
    assert forall|i: int| 0 <= i < manifest.len() implies is_asset_path(#[trigger] manifest[i])
        && normalized(manifest[i]) == manifest[i] by {
        assert(files.contains(files[i]));
        assert(file_under(node, files[i]));
        lemma_normalized_is_asset_path(files[i]);
        lemma_normalize_idempotent(files[i]);
    }
}

/// The manifest has one entry for each listed file, and distinct files have
/// distinct entries: where no path is listed twice, every path is listed
/// under the asset root and none holds a backslash, no asset path stands
/// twice in the manifest.
pub proof fn lemma_manifest_has_no_duplicates(node: FsNode)
    requires
        manifest_of(node) is Ok,
        listed_files(node)->Ok_0.no_duplicates(),
        forall|path: Seq<char>| #[trigger]
            file_under(node, path) ==> is_rooted(path) && !path.contains('\\'),
    ensures
        manifest_of(node)->Ok_0.len() == listed_files(node)->Ok_0.len(),
        manifest_of(node)->Ok_0.no_duplicates(),
{
    let files = listed_files(node)->Ok_0;
    let manifest = manifest_of(node)->Ok_0;
    lemma_listing_is_file_set(node);
    assert forall|i: int, j: int|
        0 <= i < manifest.len() && 0 <= j < manifest.len() && i != j implies manifest[i]
        != manifest[j] by {
        assert(files.contains(files[i]));
        assert(files.contains(files[j]));
        assert(file_under(node, files[i]));
        assert(file_under(node, files[j]));
        if manifest[i] == manifest[j] {
            lemma_normalized_injective(files[i], files[j]);
        }
    }
}

} // verus!
