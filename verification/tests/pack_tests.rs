use std::io::Read;
use std::io::Write;
use std::path::{Path, PathBuf};

use syncopy::matcher::{parse_ignore_string, ExclusionMatcher};
use syncopy::pack::{pack_paths, classify_child, EntryKind, PackError, RawEntry};

fn build(patterns: &[&str]) -> ExclusionMatcher {
    parse_ignore_string(patterns.iter().map(|s| s.to_string()).collect()).unwrap_or_else(
        |_| panic!("patterns should compile"),
    )
}

fn make_dir(parent: &Path, name: &str) -> PathBuf {
    let d = tempfile::Builder::new()
        .prefix(name)
        .rand_bytes(0)
        .disable_cleanup(true)
        .tempdir_in(parent)
        .unwrap_or_else(|_| panic!("cannot make directory"));
    d.path().to_path_buf()
}

fn make_file(parent: &Path, name: &str, contents: &[u8]) -> PathBuf {
    let mut f = tempfile::Builder::new()
        .prefix(name)
        .rand_bytes(0)
        .keep(true)
        .tempfile_in(parent)
        .unwrap_or_else(|_| panic!("cannot make file"));
    f.write_all(contents).unwrap_or_else(|_| panic!("cannot write file"));
    f.flush().unwrap();
    f.path().to_path_buf()
}

fn as_string(p: &Path) -> String {
    p.to_str().unwrap().to_string()
}

fn unpack(bytes: &[u8]) -> Vec<(String, Vec<u8>)> {
    let dec = flate2::read::GzDecoder::new(bytes);
    let mut archive = tar::Archive::new(dec);
    let mut out = Vec::new();
    for entry in archive.entries().unwrap() {
        let mut entry = entry.unwrap();
        let name = entry.path().unwrap().to_str().unwrap().trim_end_matches('/').to_string();
        let mut contents = Vec::new();
        entry.read_to_end(&mut contents).unwrap();
        out.push((name, contents));
    }
    out
}

#[test]
fn mixed_inputs_with_negated_exclusion() {
    let root = tempfile::tempdir().unwrap();
    let docs = make_dir(root.path(), "docs");
    make_file(&docs, "a.txt", b"alpha");
    make_file(&docs, "b.tmp", b"beta");
    make_file(&docs, "keep.tmp", b"kept");
    let readme = make_file(root.path(), "readme.txt", b"hello");

    let matcher = build(&["*.tmp", "!keep.tmp"]);
    let inputs = vec![format!("{}/", as_string(&docs)), as_string(&readme)];
    let out = pack_paths(&inputs, &matcher, false).unwrap_or_else(|_| panic!("pack must succeed"));

    let names: Vec<String> = out.entries.iter().map(|e| e.name.clone()).collect();
    assert_eq!(names.len(), 4);
    assert_eq!(names[0], "docs");
    assert!(matches!(out.entries[0].kind, EntryKind::Directory));
    assert!(names.contains(&"docs/a.txt".to_string()));
    assert!(names.contains(&"docs/keep.tmp".to_string()));
    assert_eq!(names[3], "readme.txt");
    assert!(!names.contains(&"docs/b.tmp".to_string()));
}

#[test]
fn round_trip_preserves_surviving_paths_and_bytes() {
    let root = tempfile::tempdir().unwrap();
    let docs = make_dir(root.path(), "docs");
    make_file(&docs, "a.txt", b"alpha");
    make_file(&docs, "b.tmp", b"beta");
    make_file(&docs, "keep.tmp", b"kept");
    let readme = make_file(root.path(), "readme.txt", b"hello");

    let matcher = build(&["*.tmp", "!keep.tmp"]);
    let inputs = vec![as_string(&docs), as_string(&readme)];
    let out = pack_paths(&inputs, &matcher, false).unwrap_or_else(|_| panic!("pack must succeed"));

    let unpacked = unpack(&out.bytes);
    let mut got: Vec<String> = unpacked.iter().map(|(n, _)| n.clone()).collect();
    let mut expected: Vec<String> = out.entries.iter().map(|e| e.name.clone()).collect();
    got.sort();
    expected.sort();
    assert_eq!(got, expected);
    for (name, contents) in &unpacked {
        match name.as_str() {
            "docs" => assert_eq!(contents.len(), 0),
            "docs/a.txt" => assert_eq!(contents, b"alpha"),
            "docs/keep.tmp" => assert_eq!(contents, b"kept"),
            "readme.txt" => assert_eq!(contents, b"hello"),
            other => panic!("unexpected entry {}", other),
        }
    }
}

#[test]
fn fully_excluded_input_yields_empty_result_error() {
    let root = tempfile::tempdir().unwrap();
    let only = make_dir(root.path(), "only_excluded");
    make_file(&only, "inner.txt", b"data");

    let matcher = build(&["only_excluded/"]);
    let inputs = vec![format!("{}/", as_string(&only))];
    match pack_paths(&inputs, &matcher, false) {
        Err(e @ PackError::EmptyResult) => {
            assert_eq!(e.message(), "Nothing was packed");
        },
        Err(_) => panic!("expected the empty-result error"),
        Ok(_) => panic!("an all-excluded input must not pack"),
    }
}

#[test]
fn missing_input_yields_path_error_naming_it() {
    let root = tempfile::tempdir().unwrap();
    let ghost_path = format!("{}/does_not_exist", as_string(&root.path().to_path_buf()));
    let matcher = build(&[]);
    let inputs = vec![ghost_path.clone()];
    match pack_paths(&inputs, &matcher, false) {
        Err(PackError::Path(p)) => assert_eq!(p, ghost_path),
        Err(_) => panic!("expected a path error"),
        Ok(_) => panic!("a missing input must not pack"),
    }
}

#[test]
fn pruned_directory_contributes_no_descendants() {
    let root = tempfile::tempdir().unwrap();
    let top = make_dir(root.path(), "top");
    let skip = make_dir(&top, "skip");
    make_file(&skip, "inner.txt", b"never");
    make_file(&top, "ok.txt", b"fine");

    let matcher = build(&["skip/"]);
    let inputs = vec![as_string(&top)];
    let out = pack_paths(&inputs, &matcher, false).unwrap_or_else(|_| panic!("pack must succeed"));

    let names: Vec<String> = out.entries.iter().map(|e| e.name.clone()).collect();
    assert_eq!(names, vec!["top".to_string(), "top/ok.txt".to_string()]);
}

#[test]
fn directory_inputs_are_named_by_their_basename() {
    let root = tempfile::tempdir().unwrap();
    let a = make_dir(root.path(), "a");
    let b = make_dir(&a, "b");
    make_file(&b, "file.txt", b"contents");

    let matcher = build(&[]);
    let inputs = vec![as_string(&b)];
    let out = pack_paths(&inputs, &matcher, false).unwrap_or_else(|_| panic!("pack must succeed"));

    let names: Vec<String> = out.entries.iter().map(|e| e.name.clone()).collect();
    assert_eq!(names, vec!["b".to_string(), "b/file.txt".to_string()]);
}

#[test]
fn surviving_empty_directories_are_kept() {
    let root = tempfile::tempdir().unwrap();
    let holder = make_dir(root.path(), "holder");
    make_dir(&holder, "empty");

    let matcher = build(&[]);
    let inputs = vec![as_string(&holder)];
    let out = pack_paths(&inputs, &matcher, false).unwrap_or_else(|_| panic!("pack must succeed"));

    let names: Vec<String> = out.entries.iter().map(|e| e.name.clone()).collect();
    assert_eq!(names, vec!["holder".to_string(), "holder/empty".to_string()]);
    assert!(matches!(out.entries[1].kind, EntryKind::Directory));
}

#[test]
fn inputs_sharing_a_basename_collide_in_the_namespace() {
    // naming is anchored per input, so two same-named files from different
    // parents both land under the same archive name — the caller's lookout
    let root = tempfile::tempdir().unwrap();
    let x = make_dir(root.path(), "x");
    let y = make_dir(root.path(), "y");
    let first = make_file(&x, "same.txt", b"one");
    let second = make_file(&y, "same.txt", b"two");

    let matcher = build(&[]);
    let inputs = vec![as_string(&first), as_string(&second)];
    let out = pack_paths(&inputs, &matcher, false).unwrap_or_else(|_| panic!("pack must succeed"));

    let names: Vec<String> = out.entries.iter().map(|e| e.name.clone()).collect();
    assert_eq!(names, vec!["same.txt".to_string(), "same.txt".to_string()]);
}

#[test]
fn classification_of_children_follows_the_matcher() {
    let matcher = build(&["*.tmp", "!keep.tmp"]);
    let container = "base".to_string();

    let dropped = classify_child(
        &RawEntry { path: "base/docs/b.tmp".to_string(), is_dir: false },
        &matcher,
        &container,
    );
    assert!(dropped.entry.is_none());
    assert!(!dropped.descend);

    let kept = classify_child(
        &RawEntry { path: "base/docs/keep.tmp".to_string(), is_dir: false },
        &matcher,
        &container,
    );
    let entry = kept.entry.unwrap();
    assert_eq!(entry.name, "docs/keep.tmp");
    assert!(matches!(entry.kind, EntryKind::File));
    assert!(!kept.descend);

    let dir = classify_child(
        &RawEntry { path: "base/docs".to_string(), is_dir: true },
        &matcher,
        &container,
    );
    assert_eq!(dir.entry.unwrap().name, "docs");
    assert!(dir.descend);

    let outside = classify_child(
        &RawEntry { path: "elsewhere/file".to_string(), is_dir: false },
        &matcher,
        &container,
    );
    assert!(outside.entry.is_none());
    assert!(!outside.descend);
}
