use confluence_updater::paths::{final_name_of, is_rooted, resolve_beside};

#[test]
fn resolve_beside_replaces_the_file_name_and_normalizes() {
    assert_eq!(resolve_beside("docs/page.md", "img/a.png"), "docs/img/a.png");
    assert_eq!(resolve_beside("docs/guide/page.md", "../img/a.png"), "docs/img/a.png");
    assert_eq!(resolve_beside("docs/page.md", "./a.png"), "docs/a.png");
    assert_eq!(resolve_beside("page.md", "a.png"), "a.png");
    assert_eq!(resolve_beside("/srv/docs/page.md", "a/../b.png"), "/srv/docs/b.png");
}

#[test]
fn is_rooted_tells_absolute_paths() {
    assert!(is_rooted("/abs/img.png"));
    assert!(!is_rooted("rel/img.png"));
    assert!(!is_rooted("./img.png"));
    assert!(!is_rooted(""));
}

#[test]
fn final_name_of_gives_the_last_component() {
    assert_eq!(final_name_of("docs/img/a.png"), "a.png");
    assert_eq!(final_name_of("a.png"), "a.png");
    assert_eq!(final_name_of("docs/.."), "");
    assert_eq!(final_name_of(""), "");
}
