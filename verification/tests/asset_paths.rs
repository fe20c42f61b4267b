use asset_preload::asset_paths::{
    load_asset_paths, load_asset_paths_recursive, read_files_recursive, FsNode, WalkError,
};

fn file(path: &str) -> FsNode {
    FsNode::File(path.to_string())
}

fn sorted(mut paths: Vec<String>) -> Vec<String> {
    paths.sort();
    paths
}

/// The tree of an asset root `./assets` with two files in two directories.
fn two_file_root() -> FsNode {
    FsNode::Dir(vec![
        FsNode::Dir(vec![file("./assets/images/a.png")]),
        FsNode::Dir(vec![file("./assets/sounds/b.wav")]),
    ])
}

#[test]
fn read_files_recursive_works() {
    let root = FsNode::Dir(vec![
        file("./assets/readme.txt"),
        FsNode::Dir(vec![file("./assets/images/a.png")]),
    ]);
    let result = read_files_recursive(&root).unwrap();
    assert_eq!(result, vec!["./assets/readme.txt", "./assets/images/a.png"]);
    result.into_iter().for_each(|p| println!("{p}"))
}

#[test]
fn read_files_recursive_keeps_paths_as_listed() {
    let root = FsNode::Dir(vec![file("./assets\\images\\a.png")]);
    assert_eq!(read_files_recursive(&root), Ok(vec!["./assets\\images\\a.png".to_string()]));
}

#[test]
fn enumeration_yields_the_set_of_files() {
    let manifest = load_asset_paths(&two_file_root()).unwrap();
    assert_eq!(sorted(manifest), vec!["images/a.png", "sounds/b.wav"]);
}

#[test]
fn enumeration_follows_the_order_of_the_listing() {
    let root = FsNode::Dir(vec![
        file("./assets/z.txt"),
        FsNode::Dir(vec![
            file("./assets/d/2.bin"),
            FsNode::Dir(vec![file("./assets/d/e/deep.bin")]),
            file("./assets/d/1.bin"),
        ]),
        file("./assets/a.txt"),
    ]);
    assert_eq!(
        load_asset_paths(&root),
        Ok(vec![
            "z.txt".to_string(),
            "d/2.bin".to_string(),
            "d/e/deep.bin".to_string(),
            "d/1.bin".to_string(),
            "a.txt".to_string(),
        ])
    );
}

#[test]
fn empty_root_yields_an_empty_manifest() {
    assert_eq!(load_asset_paths(&FsNode::Dir(vec![])), Ok(vec![]));
    assert_eq!(read_files_recursive(&FsNode::Dir(vec![])), Ok(vec![]));
}

#[test]
fn empty_directories_contribute_nothing() {
    let root = FsNode::Dir(vec![
        FsNode::Dir(vec![]),
        FsNode::Dir(vec![FsNode::Dir(vec![])]),
        file("./assets/only.txt"),
    ]);
    assert_eq!(load_asset_paths(&root), Ok(vec!["only.txt".to_string()]));
}

#[test]
fn missing_root_is_a_failure() {
    assert_eq!(load_asset_paths(&FsNode::Missing), Err(WalkError::Missing));
    assert_eq!(load_asset_paths_recursive(&FsNode::Missing), Err(WalkError::Missing));
    assert_eq!(read_files_recursive(&FsNode::Missing), Err(WalkError::Missing));
    assert_ne!(load_asset_paths(&FsNode::Missing), load_asset_paths(&FsNode::Dir(vec![])));
}

#[test]
fn unreadable_root_is_a_failure() {
    assert_eq!(load_asset_paths(&FsNode::Unreadable), Err(WalkError::Unreadable));
    assert_eq!(read_files_recursive(&FsNode::Unreadable), Err(WalkError::Unreadable));
}

#[test]
fn unreadable_directory_fails_the_walk() {
    let root = FsNode::Dir(vec![
        file("./assets/a.txt"),
        FsNode::Dir(vec![file("./assets/d/b.txt"), FsNode::Unreadable]),
        file("./assets/c.txt"),
    ]);
    assert_eq!(load_asset_paths(&root), Err(WalkError::Unreadable));
    assert_eq!(read_files_recursive(&root), Err(WalkError::Unreadable));
}

#[test]
fn the_first_failure_of_the_walk_is_reported() {
    let root = FsNode::Dir(vec![FsNode::Dir(vec![FsNode::Missing]), FsNode::Unreadable]);
    assert_eq!(load_asset_paths(&root), Err(WalkError::Missing));
    let root = FsNode::Dir(vec![FsNode::Unreadable, FsNode::Missing]);
    assert_eq!(load_asset_paths(&root), Err(WalkError::Unreadable));
}

#[test]
fn a_root_that_is_no_directory_has_nothing_under_it() {
    assert_eq!(load_asset_paths(&file("./assets")), Ok(vec![]));
    assert_eq!(read_files_recursive(&file("./assets")), Ok(vec![]));
}

#[test]
fn listed_paths_are_normalized() {
    let root = FsNode::Dir(vec![
        file(".\\assets\\plain.txt"),
        file("./assets\\images\\a.png"),
        FsNode::Dir(vec![file("./assets/sounds\\b.wav")]),
    ]);
    assert_eq!(
        load_asset_paths(&root),
        Ok(vec![
            "plain.txt".to_string(),
            "images/a.png".to_string(),
            "sounds/b.wav".to_string(),
        ])
    );
}

#[test]
fn every_file_gets_one_entry() {
    let root = FsNode::Dir(vec![
        file("./assets/a"),
        FsNode::Dir(vec![file("./assets/d/a"), file("./assets/d/b")]),
        FsNode::Dir(vec![FsNode::Dir(vec![file("./assets/e/f/a")])]),
    ]);
    let manifest = load_asset_paths(&root).unwrap();
    assert_eq!(manifest.len(), 4);
    assert_eq!(sorted(manifest), vec!["a", "d/a", "d/b", "e/f/a"]);
}

#[test]
fn marker_inside_a_path_is_kept() {
    let root = FsNode::Dir(vec![FsNode::Dir(vec![FsNode::Dir(vec![file(
        "./assets/foo./assets/b.png",
    )])])]);
    assert_eq!(load_asset_paths(&root), Ok(vec!["foo./assets/b.png".to_string()]));
}

#[test]
fn distinct_files_give_distinct_entries() {
    let root = FsNode::Dir(vec![
        file("./assets/foob.png"),
        FsNode::Dir(vec![FsNode::Dir(vec![file("./assets/foo./assets/b.png")])]),
    ]);
    assert_eq!(
        load_asset_paths(&root),
        Ok(vec!["foob.png".to_string(), "foo./assets/b.png".to_string()])
    );
}

#[test]
fn manifest_entries_are_normalized_already() {
    let root = FsNode::Dir(vec![
        file("./assets/x./ass./assets/ets/a"),
        file("./assets\\images\\a.png"),
    ]);
    let manifest = load_asset_paths(&root).unwrap();
    assert_eq!(manifest, vec!["x./ass./assets/ets/a", "images/a.png"]);
    let again = load_asset_paths(&FsNode::Dir(
        manifest.iter().map(|entry| FsNode::File(entry.clone())).collect(),
    ));
    assert_eq!(again, Ok(manifest));
}

#[test]
fn recursive_walk_and_entry_point_agree() {
    for root in [two_file_root(), FsNode::Dir(vec![]), FsNode::Missing, FsNode::Unreadable] {
        assert_eq!(load_asset_paths_recursive(&root), load_asset_paths(&root));
    }
}
