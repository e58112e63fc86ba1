use std::io::Write;
use std::path::{Path, PathBuf};

use tempfile::{Builder, TempDir};
use vacuum::adapter::{compute_dir_size, Adapter};
use vacuum::adapters::{CargoAdapter, GoAdapter, NodeAdapter};

fn s(p: &Path) -> String {
    p.to_string_lossy().into_owned()
}

/// Creates the directories `parent/names[0]/names[1]/...` and keeps them.
fn mkdirs(parent: &Path, names: &[&str]) -> PathBuf {
    let mut p = parent.to_path_buf();
    for name in names {
        let next = p.join(name);
        if !next.is_dir() {
            Builder::new()
                .prefix(name)
                .rand_bytes(0)
                .disable_cleanup(true)
                .tempdir_in(&p)
                .unwrap();
        }
        p = next;
    }
    p
}

/// Creates the file `parent/name` holding `content` and keeps it.
fn mkfile(parent: &Path, name: &str, content: &[u8]) -> PathBuf {
    let mut f = Builder::new()
        .prefix(name)
        .rand_bytes(0)
        .disable_cleanup(true)
        .tempfile_in(parent)
        .unwrap();
    f.write_all(content).unwrap();
    f.path().to_path_buf()
}

fn make_cargo_project(root: &Path) {
    mkfile(
        root,
        "Cargo.toml",
        b"[package]\nname = \"test\"\nversion = \"0.1.0\"\nedition = \"2021\"",
    );
    let debug = mkdirs(root, &["target", "debug"]);
    mkfile(&debug, "app", b"binary");
}

fn make_node_project(root: &Path) {
    mkfile(root, "package.json", b"{}");
    let dep = mkdirs(root, &["node_modules", "dep"]);
    mkfile(&dep, "index.js", b"");
}

fn make_go_project(root: &Path) {
    mkfile(root, "go.mod", b"module example.com/app\n\ngo 1.21");
    let pkg = mkdirs(root, &["vendor", "github.com", "pkg"]);
    mkfile(&pkg, "lib.go", b"package pkg");
}

// ── compute_dir_size ─────────────────────────────────────────────────────────

#[test]
fn compute_dir_size_empty_dir() {
    let dir = TempDir::new().unwrap();
    assert_eq!(compute_dir_size(&s(dir.path())), 0);
}

#[test]
fn compute_dir_size_single_file() {
    let dir = TempDir::new().unwrap();
    let content = b"hello world";
    mkfile(dir.path(), "file.txt", content);
    assert_eq!(compute_dir_size(&s(dir.path())), content.len() as u64);
}

#[test]
fn compute_dir_size_sums_nested_files() {
    let dir = TempDir::new().unwrap();
    let a = b"aaa";
    let b_data = b"bb";
    mkfile(dir.path(), "a.txt", a);
    let sub = mkdirs(dir.path(), &["sub"]);
    mkfile(&sub, "b.txt", b_data);
    assert_eq!(compute_dir_size(&s(dir.path())), (a.len() + b_data.len()) as u64);
}

#[test]
fn compute_dir_size_missing_path_is_zero() {
    let dir = TempDir::new().unwrap();
    assert_eq!(compute_dir_size(&s(&dir.path().join("absent"))), 0);
}

// ── cargo ────────────────────────────────────────────────────────────────────

#[test]
fn no_target_dir_returns_empty() {
    let dir = TempDir::new().unwrap();
    mkfile(dir.path(), "Cargo.toml", b"[package]");
    let targets = CargoAdapter.scan(&s(dir.path())).unwrap();
    assert!(targets.is_empty());
}

#[test]
fn target_without_cargo_toml_not_detected() {
    let dir = TempDir::new().unwrap();
    mkdirs(dir.path(), &["target"]);
    let targets = CargoAdapter.scan(&s(dir.path())).unwrap();
    assert!(targets.is_empty());
}

#[test]
fn target_with_cargo_toml_detected() {
    let dir = TempDir::new().unwrap();
    make_cargo_project(dir.path());
    let targets = CargoAdapter.scan(&s(dir.path())).unwrap();
    assert_eq!(targets.len(), 1);
    assert_eq!(targets[0].path, s(&dir.path().join("target")));
    assert_eq!(targets[0].adapter, "cargo");
    assert_eq!(targets[0].size, 6);
}

#[test]
fn nested_target_inside_target_not_rescanned() {
    let dir = TempDir::new().unwrap();
    mkfile(dir.path(), "Cargo.toml", b"[package]");
    let inner = mkdirs(dir.path(), &["target", "inner"]);
    mkfile(&inner, "Cargo.toml", b"[package]");
    mkdirs(&inner, &["target"]);

    let targets = CargoAdapter.scan(&s(dir.path())).unwrap();
    assert_eq!(targets.len(), 1);
    assert_eq!(targets[0].path, s(&dir.path().join("target")));
}

#[test]
fn cargo_multiple_projects_each_detected() {
    let dir = TempDir::new().unwrap();
    let proj_a = mkdirs(dir.path(), &["crate_a"]);
    let proj_b = mkdirs(dir.path(), &["crate_b"]);
    make_cargo_project(&proj_a);
    make_cargo_project(&proj_b);

    let targets = CargoAdapter.scan(&s(dir.path())).unwrap();
    assert_eq!(targets.len(), 2);
    let paths: Vec<_> = targets.iter().map(|t| t.path.clone()).collect();
    assert!(paths.contains(&s(&proj_a.join("target"))));
    assert!(paths.contains(&s(&proj_b.join("target"))));
}

// ── go ───────────────────────────────────────────────────────────────────────

#[test]
fn no_vendor_returns_empty() {
    let dir = TempDir::new().unwrap();
    mkfile(dir.path(), "go.mod", b"module example.com/app");
    let targets = GoAdapter.scan(&s(dir.path())).unwrap();
    assert!(targets.is_empty());
}

#[test]
fn vendor_without_go_mod_not_detected() {
    let dir = TempDir::new().unwrap();
    mkdirs(dir.path(), &["vendor"]);
    let targets = GoAdapter.scan(&s(dir.path())).unwrap();
    assert!(targets.is_empty());
}

#[test]
fn vendor_with_go_mod_detected() {
    let dir = TempDir::new().unwrap();
    make_go_project(dir.path());
    let targets = GoAdapter.scan(&s(dir.path())).unwrap();
    assert_eq!(targets.len(), 1);
    assert_eq!(targets[0].path, s(&dir.path().join("vendor")));
    assert_eq!(targets[0].adapter, "go");
}

#[test]
fn multiple_go_projects_each_detected() {
    let dir = TempDir::new().unwrap();
    let proj_a = mkdirs(dir.path(), &["service_a"]);
    let proj_b = mkdirs(dir.path(), &["service_b"]);
    make_go_project(&proj_a);
    make_go_project(&proj_b);

    let targets = GoAdapter.scan(&s(dir.path())).unwrap();
    assert_eq!(targets.len(), 2);
    let paths: Vec<_> = targets.iter().map(|t| t.path.clone()).collect();
    assert!(paths.contains(&s(&proj_a.join("vendor"))));
    assert!(paths.contains(&s(&proj_b.join("vendor"))));
}

// ── node ─────────────────────────────────────────────────────────────────────

#[test]
fn no_node_modules_returns_empty() {
    let dir = TempDir::new().unwrap();
    mkfile(dir.path(), "package.json", b"{}");
    let targets = NodeAdapter.scan(&s(dir.path())).unwrap();
    assert!(targets.is_empty());
}

#[test]
fn node_modules_without_package_json_not_detected() {
    let dir = TempDir::new().unwrap();
    mkdirs(dir.path(), &["node_modules"]);
    let targets = NodeAdapter.scan(&s(dir.path())).unwrap();
    assert!(targets.is_empty());
}

#[test]
fn node_modules_with_package_json_detected() {
    let dir = TempDir::new().unwrap();
    make_node_project(dir.path());
    let targets = NodeAdapter.scan(&s(dir.path())).unwrap();
    assert_eq!(targets.len(), 1);
    assert_eq!(targets[0].path, s(&dir.path().join("node_modules")));
    assert_eq!(targets[0].adapter, "node");
}

#[test]
fn nested_node_modules_inside_node_modules_not_rescanned() {
    let dir = TempDir::new().unwrap();
    mkfile(dir.path(), "package.json", b"{}");
    let nested = mkdirs(dir.path(), &["node_modules", "inner"]);
    mkfile(&nested, "package.json", b"{}");
    mkdirs(&nested, &["node_modules"]);

    let targets = NodeAdapter.scan(&s(dir.path())).unwrap();
    assert_eq!(targets.len(), 1);
    assert_eq!(targets[0].path, s(&dir.path().join("node_modules")));
}

#[test]
fn node_multiple_projects_each_detected() {
    let dir = TempDir::new().unwrap();
    let proj_a = mkdirs(dir.path(), &["project_a"]);
    let proj_b = mkdirs(dir.path(), &["project_b"]);
    make_node_project(&proj_a);
    make_node_project(&proj_b);

    let targets = NodeAdapter.scan(&s(dir.path())).unwrap();
    assert_eq!(targets.len(), 2);
    let paths: Vec<_> = targets.iter().map(|t| t.path.clone()).collect();
    assert!(paths.contains(&s(&proj_a.join("node_modules"))));
    assert!(paths.contains(&s(&proj_b.join("node_modules"))));
}
