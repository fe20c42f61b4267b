use asset_preload::normalize::normalize_path;

#[test]
fn root_marker_is_taken_out() {
    assert_eq!(normalize_path("./assets/images/a.png"), "images/a.png");
}

#[test]
fn backslashes_become_forward_slashes() {
    assert_eq!(normalize_path("images\\sub\\a.png"), "images/sub/a.png");
    assert_eq!(normalize_path("\\"), "/");
}

#[test]
fn separators_are_converted_before_the_marker_is_looked_for() {
    assert_eq!(normalize_path(".\\assets\\images\\a.png"), "images/a.png");
    assert_eq!(normalize_path("./assets\\sounds\\b.wav"), "sounds/b.wav");
}

#[test]
fn normalized_path_comes_back_unchanged() {
    for path in ["images/a.png", "sounds/b.wav", "a", "", "assets/x", "./asset/x", "../x"] {
        assert_eq!(normalize_path(path), path);
    }
    let once = normalize_path("./assets\\images\\a.png");
    assert_eq!(normalize_path(&once), once);
}

#[test]
fn only_the_prefix_is_stripped() {
    assert_eq!(normalize_path("./assets/foo./assets/b.png"), "foo./assets/b.png");
    assert_eq!(normalize_path("./assets/a/./assets/b"), "a/./assets/b");
    assert_eq!(normalize_path("./assets/x./ass./assets/ets/a"), "x./ass./assets/ets/a");
}

#[test]
fn marker_behind_the_start_is_kept() {
    assert_eq!(normalize_path("x./assets/"), "x./assets/");
    assert_eq!(normalize_path("././assets/assets/x"), "././assets/assets/x");
    assert_eq!(normalize_path("./assets./assets/"), "./assets./assets/");
    assert_eq!(normalize_path("images/./assets/a.png"), "images/./assets/a.png");
}

#[test]
fn one_prefix_is_taken_off() {
    assert_eq!(normalize_path("./assets/./assets/x"), "./assets/x");
    assert_eq!(normalize_path("./assets/"), "");
}

#[test]
fn normalizing_twice_is_normalizing_once() {
    for path in [
        "./assets/images/a.png",
        ".\\assets\\images\\a.png",
        "./assets/foo./assets/b.png",
        "./assets/x./ass./assets/ets/a",
        "images\\a.png",
        "./assets",
        "",
    ] {
        let once = normalize_path(path);
        assert_eq!(normalize_path(&once), once);
    }
}

#[test]
fn short_and_near_miss_paths_are_kept() {
    assert_eq!(normalize_path("./assets"), "./assets");
    assert_eq!(normalize_path("./assetz/x"), "./assetz/x");
    assert_eq!(normalize_path("/assets/x"), "/assets/x");
    assert_eq!(normalize_path("."), ".");
}

#[test]
fn other_characters_are_kept() {
    assert_eq!(normalize_path("./assets/gr\u{fc}\u{df}e/\u{1F600}.png"), "gr\u{fc}\u{df}e/\u{1F600}.png");
    assert_eq!(normalize_path("./assets/a b/c\"d.txt"), "a b/c\"d.txt");
}
