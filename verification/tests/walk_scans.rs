use std::io::Write;
use std::path::{Path, PathBuf};

use tempfile::{Builder, TempDir};
use vacuum::adapters::dirs::{scan_dirs_in, DirRule};
use vacuum::adapters::gitignore::gitignore_scan_from;
use vacuum::adapters::python::has_py_entry_in;
use vacuum::interactive::adapter_select::entries;
use vacuum::scanner::{collect_events, scan_streaming, ScanConfig};
use vacuum::walk::{add_file_len, sum_file_lens, Walk};

fn s(p: &Path) -> String {
    p.to_string_lossy().into_owned()
}

/// Creates the directories `parent/names[0]/names[1]/...` and keeps them.
fn mkdirs(parent: &Path, names: &[&str]) -> PathBuf {
    let mut p = parent.to_path_buf();
    for name in names {
        let next = p.join(name);
        if !next.is_dir() {
            Builder::new()
                .prefix(name)
                .rand_bytes(0)
                .disable_cleanup(true)
                .tempdir_in(&p)
                .unwrap();
        }
        p = next;
    }
    p
}

/// Creates the file `parent/name` holding `content` and keeps it.
fn mkfile(parent: &Path, name: &str, content: &[u8]) -> PathBuf {
    let mut f = Builder::new()
        .prefix(name)
        .rand_bytes(0)
        .disable_cleanup(true)
        .tempfile_in(parent)
        .unwrap();
    f.write_all(content).unwrap();
    f.path().to_path_buf()
}

fn all_enabled() -> ScanConfig {
    ScanConfig {
        no_size: false,
        node: true,
        cargo: true,
        python: true,
        go: true,
        gradle: true,
        maven: true,
        ocaml: true,
        gitignore: false,
    }
}

#[test]
fn add_file_len_counts_regular_files_only() {
    assert_eq!(add_file_len(5, Some((true, 3))), 8);
    assert_eq!(add_file_len(5, Some((false, 3))), 5);
    assert_eq!(add_file_len(5, None), 5);
    assert_eq!(add_file_len(u64::MAX - 1, Some((true, 10))), u64::MAX);
}

#[test]
fn sum_file_lens_sums_the_files_of_a_walk() {
    let dir = TempDir::new().unwrap();
    mkfile(dir.path(), "a.txt", b"aaa");
    let sub = mkdirs(dir.path(), &["sub"]);
    mkfile(&sub, "b.txt", b"bb");
    let mut w = Walk::open(&s(dir.path()));
    assert_eq!(sum_file_lens(&mut w), 5);
}

#[test]
fn scan_dirs_in_reports_marked_directory_once() {
    let dir = TempDir::new().unwrap();
    mkfile(dir.path(), "package.json", b"{}");
    let nm = mkdirs(dir.path(), &["node_modules", "inner", "node_modules"]);
    mkfile(&nm, "x.js", b"x");
    mkdirs(dir.path(), &["lonely", "node_modules"]);
    let mut w = Walk::open(&s(dir.path()));
    let ts = scan_dirs_in(&mut w, DirRule::Node);
    assert_eq!(ts.len(), 1);
    assert_eq!(ts[0].path, s(&dir.path().join("node_modules")));
    assert_eq!(ts[0].adapter, "node");
}

#[test]
fn has_py_entry_in_sees_only_direct_entries() {
    let dir = TempDir::new().unwrap();
    let sub = mkdirs(dir.path(), &["sub"]);
    mkfile(&sub, "deep.py", b"x");
    let mut w = Walk::open_children(&s(dir.path()));
    assert!(!has_py_entry_in(&mut w));
    mkfile(dir.path(), "top.py", b"x");
    let mut w2 = Walk::open_children(&s(dir.path()));
    assert!(has_py_entry_in(&mut w2));
}

#[test]
fn gitignore_scan_from_without_gitignore_is_empty() {
    let dir = TempDir::new().unwrap();
    mkfile(dir.path(), "a.log", b"x");
    let mut w = Walk::open(&s(dir.path()));
    let r = gitignore_scan_from(&mut w);
    assert!(matches!(r, Ok(ref ts) if ts.is_empty()));
}

#[test]
fn gitignore_scan_from_reports_ignored_files() {
    let dir = TempDir::new().unwrap();
    mkfile(dir.path(), ".gitignore", b"*.log\n");
    mkfile(dir.path(), "a.log", b"x");
    mkfile(dir.path(), "keep.txt", b"x");
    let mut w = Walk::open(&s(dir.path()));
    let ts = match gitignore_scan_from(&mut w) {
        Ok(ts) => ts,
        Err(_) => panic!("the matcher should build"),
    };
    assert_eq!(ts.len(), 1);
    assert_eq!(ts[0].path, s(&dir.path().join("a.log")));
    assert_eq!(ts[0].description, "gitignore match: a.log");
}

#[test]
fn collect_events_reports_cargo_before_maven_and_python_build() {
    let dir = TempDir::new().unwrap();
    mkfile(dir.path(), "Cargo.toml", b"");
    mkfile(dir.path(), "pom.xml", b"");
    mkfile(dir.path(), "setup.py", b"");
    mkfile(dir.path(), "build.gradle", b"");
    mkdirs(dir.path(), &["target"]);
    mkdirs(dir.path(), &["build"]);
    let mut cfg = all_enabled();
    cfg.no_size = true;
    let mut scan = scan_streaming(&s(dir.path()), &cfg);
    let all = collect_events(&mut scan);
    let mut got: Vec<(String, &str)> = all.iter().map(|t| (t.path.clone(), t.adapter)).collect();
    got.sort();
    assert_eq!(
        got,
        vec![(s(&dir.path().join("build")), "python"), (s(&dir.path().join("target")), "cargo")]
    );
    assert!(all.iter().all(|t| t.size == 0));
}

#[test]
fn adapter_rows_name_what_each_adapter_removes() {
    let rows = entries();
    let go = rows.iter().find(|e| e.name == "go").unwrap();
    let gradle = rows.iter().find(|e| e.name == "gradle").unwrap();
    let maven = rows.iter().find(|e| e.name == "maven").unwrap();
    assert_eq!(go.description, "vendor/");
    assert_eq!(gradle.description, ".gradle/, build/");
    assert_eq!(maven.description, "target/");
}

#[test]
fn trailing_separator_is_not_a_component() {
    let p: Vec<char> = "/x/node_modules/".chars().collect();
    let name: String = vacuum::path::file_name_of(&p).into_iter().collect();
    assert_eq!(name, "node_modules");
    let parent: Option<String> = vacuum::path::parent_of(&p).map(|d| d.into_iter().collect());
    assert_eq!(parent, Some("/x".to_string()));
    let root: Vec<char> = "/".chars().collect();
    assert_eq!(vacuum::path::parent_of(&root), None);
}

#[test]
fn root_given_with_trailing_separator_is_claimed() {
    let dir = TempDir::new().unwrap();
    mkfile(dir.path(), "package.json", b"{}");
    let nm = mkdirs(dir.path(), &["node_modules"]);
    let root = format!("{}/", s(&nm));
    let mut cfg = all_enabled();
    cfg.no_size = true;
    let mut scan = scan_streaming(&root, &cfg);
    let all = collect_events(&mut scan);
    assert_eq!(all.len(), 1);
    assert_eq!(all[0].path, root);
    assert_eq!(all[0].adapter, "node");
}

#[test]
fn streaming_scan_adds_gitignore_results_once() {
    let dir = TempDir::new().unwrap();
    mkfile(dir.path(), "Cargo.toml", b"");
    mkfile(dir.path(), ".gitignore", b"target/\n*.log\n");
    mkfile(dir.path(), "a.log", b"x");
    mkdirs(dir.path(), &["target"]);
    let mut cfg = all_enabled();
    cfg.no_size = true;
    cfg.gitignore = true;
    let mut scan = scan_streaming(&s(dir.path()), &cfg);
    let all = collect_events(&mut scan);
    let mut got: Vec<(String, &str)> = all.iter().map(|t| (t.path.clone(), t.adapter)).collect();
    got.sort();
    assert_eq!(
        got,
        vec![(s(&dir.path().join("a.log")), "gitignore"), (s(&dir.path().join("target")), "cargo")]
    );
}
