use launch_funnel::resolver::{
    filter_bpmn, is_bpmn_path, normalize_batch, normalize_url_to_path, process_paths,
};

fn strings(items: &[&str]) -> Vec<String> {
    items.iter().map(|s| s.to_string()).collect()
}

#[test]
fn accepts_each_recognized_suffix() {
    assert!(is_bpmn_path("diagram.bpmn"));
    assert!(is_bpmn_path("diagram.bpmn20.xml"));
    assert!(is_bpmn_path("diagram.process.bpmn20.xml"));
}

#[test]
fn accepts_any_letter_case() {
    assert!(is_bpmn_path("DIAGRAM.BPMN"));
    assert!(is_bpmn_path("diagram.Bpmn"));
    assert!(is_bpmn_path("Diagram.BpMn20.XmL"));
    assert!(is_bpmn_path("d.PROCESS.BPMN20.XML"));
}

#[test]
fn rejects_other_suffixes() {
    assert!(!is_bpmn_path("notes.txt"));
    assert!(!is_bpmn_path("diagram.xml"));
    assert!(!is_bpmn_path("diagram.bpmn.bak"));
    assert!(!is_bpmn_path("bpmn"));
    assert!(!is_bpmn_path(""));
    assert!(!is_bpmn_path("--flag"));
}

#[test]
fn suffix_must_be_at_the_end() {
    assert!(!is_bpmn_path("a.bpmn/other"));
    assert!(is_bpmn_path("dir.with.dots/a.bpmn"));
}

#[test]
fn url_prefix_is_stripped() {
    assert_eq!(normalize_url_to_path("file:///tmp/a.bpmn"), "/tmp/a.bpmn");
    assert_eq!(normalize_url_to_path("/tmp/a.bpmn"), "/tmp/a.bpmn");
}

#[test]
fn url_prefix_is_stripped_only_once_and_only_at_the_front() {
    assert_eq!(normalize_url_to_path("file://file:///x.bpmn"), "file:///x.bpmn");
    assert_eq!(normalize_url_to_path("dir/file://x"), "dir/file://x");
    assert_eq!(normalize_url_to_path("file:/"), "file:/");
    assert_eq!(normalize_url_to_path(""), "");
}

#[test]
fn url_and_bare_path_resolve_alike() {
    let from_url = process_paths(strings(&["file:///tmp/a.bpmn"]));
    let from_path = process_paths(strings(&["/tmp/a.bpmn"]));
    assert_eq!(from_url, strings(&["/tmp/a.bpmn"]));
    assert_eq!(from_url, from_path);
}

#[test]
fn order_is_preserved_and_nonmatching_tokens_drop_out() {
    let out = process_paths(strings(&["x.bpmn", "y.txt", "z.BPMN"]));
    assert_eq!(out, strings(&["x.bpmn", "z.BPMN"]));
}

#[test]
fn duplicates_are_kept_at_this_stage() {
    let out = process_paths(strings(&["a.bpmn", "a.bpmn"]));
    assert_eq!(out, strings(&["a.bpmn", "a.bpmn"]));
}

#[test]
fn empty_batch_resolves_to_empty() {
    let out = process_paths(Vec::new());
    assert!(out.is_empty());
}

#[test]
fn filter_alone_keeps_exactly_the_documents() {
    let out = filter_bpmn(strings(&["/tmp/a.bpmn", "/tmp/b.txt", "/tmp/C.BPMN20.XML"]));
    assert_eq!(out, strings(&["/tmp/a.bpmn", "/tmp/C.BPMN20.XML"]));
}

#[test]
fn normalize_batch_maps_every_token() {
    let out = normalize_batch(&strings(&["file:///a.bpmn", "/b.txt", "file://x"]));
    assert_eq!(out, strings(&["/a.bpmn", "/b.txt", "x"]));
}
