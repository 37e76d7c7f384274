use oasgen::normalize_path;

#[test]
fn colon_segment_at_the_end_is_rewritten() {
    assert_eq!(normalize_path("/users/:id"), "/users/{id}");
}

#[test]
fn colon_segment_in_the_middle_is_rewritten() {
    assert_eq!(normalize_path("/users/:id/posts"), "/users/{id}/posts");
}

#[test]
fn adjacent_colon_segments_are_all_rewritten() {
    assert_eq!(normalize_path("/:tenant/:user/:post_2"), "/{tenant}/{user}/{post_2}");
}

#[test]
fn braced_segment_stays() {
    assert_eq!(normalize_path("/users/{id}"), "/users/{id}");
}

#[test]
fn path_without_parameters_stays() {
    assert_eq!(normalize_path("/hello"), "/hello");
    assert_eq!(normalize_path("/"), "/");
    assert_eq!(normalize_path(""), "");
    assert_eq!(normalize_path("/a//b/"), "/a//b/");
}

#[test]
fn colon_without_a_name_stays() {
    assert_eq!(normalize_path("/a/:"), "/a/:");
    assert_eq!(normalize_path("/a/:/b"), "/a/:/b");
}

#[test]
fn colon_segment_with_other_characters_stays() {
    assert_eq!(normalize_path("/files/:name.json"), "/files/:name.json");
    assert_eq!(normalize_path("/a/:b-c/d"), "/a/:b-c/d");
    assert_eq!(normalize_path("/time/12:30"), "/time/12:30");
}

#[test]
fn normalizing_twice_changes_nothing() {
    for path in ["/users/:id", "/:a/:b", "/x/{y}/:z/", "/plain", "/a/:b-c"] {
        let once = normalize_path(path);
        assert_eq!(normalize_path(&once), once);
    }
}

#[test]
fn non_ascii_text_is_kept() {
    assert_eq!(normalize_path("/caf\u{e9}/:id"), "/caf\u{e9}/{id}");
    assert_eq!(normalize_path("/:caf\u{e9}"), "/:caf\u{e9}");
}
