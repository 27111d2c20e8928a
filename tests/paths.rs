use lorri::pathreduction::reduce_paths;

fn strings(v: &[&str]) -> Vec<String> {
    v.iter().map(|s| s.to_string()).collect()
}

#[test]
fn nested_and_repeated_paths_collapse() {
    let p = strings(&["/a/b", "/a", "/c", "/a", "/c/d/e"]);
    assert_eq!(reduce_paths(&p), strings(&["/a", "/c"]));
}

#[test]
fn sibling_with_common_prefix_is_kept() {
    let p = strings(&["/ab", "/a", "/a/b"]);
    assert_eq!(reduce_paths(&p), strings(&["/ab", "/a"]));
}

#[test]
fn reducing_twice_changes_nothing() {
    let p = strings(&["/x/y", "/x/y/z", "/w", "/x/y", "/v/1", "/v"]);
    let once = reduce_paths(&p);
    assert_eq!(reduce_paths(&once), once);
    assert_eq!(once, strings(&["/x/y", "/w", "/v"]));
}

#[test]
fn empty_list_reduces_to_nothing() {
    assert!(reduce_paths(&Vec::new()).is_empty());
}
