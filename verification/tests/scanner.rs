use std::io::Write;
use std::path::{Path, PathBuf};

use tempfile::{Builder, TempDir};
use vacuum::adapter::{Adapter, CleanTarget, ScanError};
use vacuum::scanner::{build_adapters, merge_results, scan, scan_enabled, AdapterKind, ScanConfig};

fn s(p: &Path) -> String {
    p.to_string_lossy().into_owned()
}

/// Creates the directories `parent/names[0]/names[1]/...` and keeps them.
fn mkdirs(parent: &Path, names: &[&str]) -> PathBuf {
    let mut p = parent.to_path_buf();
    for name in names {
        let next = p.join(name);
        if !next.is_dir() {
            Builder::new()
                .prefix(name)
                .rand_bytes(0)
                .disable_cleanup(true)
                .tempdir_in(&p)
                .unwrap();
        }
        p = next;
    }
    p
}

/// Creates the file `parent/name` holding `content` and keeps it.
fn mkfile(parent: &Path, name: &str, content: &[u8]) -> PathBuf {
    let mut f = Builder::new()
        .prefix(name)
        .rand_bytes(0)
        .disable_cleanup(true)
        .tempfile_in(parent)
        .unwrap();
    f.write_all(content).unwrap();
    f.path().to_path_buf()
}

struct FixedAdapter {
    name: &'static str,
    targets: Vec<String>,
}

impl Adapter for FixedAdapter {
    fn name(&self) -> &'static str {
        self.name
    }
    fn description(&self) -> &'static str {
        "test adapter"
    }
    fn is_safe(&self) -> bool {
        true
    }
    fn scan(&self, _root: &str) -> Result<Vec<CleanTarget>, ScanError> {
        Ok(self
            .targets
            .iter()
            .map(|p| CleanTarget {
                path: p.clone(),
                adapter: self.name,
                description: "test".into(),
                size: 0,
            })
            .collect())
    }
}

fn target(path: &str, adapter: &'static str) -> CleanTarget {
    CleanTarget { path: path.to_string(), adapter, description: "test".into(), size: 0 }
}

#[test]
fn scan_returns_empty_for_no_adapters() {
    let adapters: Vec<FixedAdapter> = vec![];
    let results = scan("/tmp", &adapters).unwrap();
    assert!(results.is_empty());
}

#[test]
fn scan_deduplicates_by_path() {
    let path_a = "/tmp/vac_test_dedup/a".to_string();
    let path_b = "/tmp/vac_test_dedup/b".to_string();

    let adapter1 = FixedAdapter { name: "first", targets: vec![path_a.clone()] };
    let adapter2 = FixedAdapter { name: "second", targets: vec![path_a.clone(), path_b.clone()] };

    let results = scan("/tmp", &[adapter1, adapter2]).unwrap();
    assert_eq!(results.len(), 2);
    assert_eq!(results.iter().filter(|t| t.path == path_a).count(), 1);
    assert_eq!(results.iter().filter(|t| t.path == path_b).count(), 1);
}

#[test]
fn scan_sorts_results_by_path() {
    let path_z = "/tmp/vac_test_sort/z".to_string();
    let path_a = "/tmp/vac_test_sort/a".to_string();
    let path_m = "/tmp/vac_test_sort/m".to_string();

    let adapter = FixedAdapter {
        name: "test",
        targets: vec![path_z.clone(), path_a.clone(), path_m.clone()],
    };

    let results = scan("/tmp", &[adapter]).unwrap();
    assert_eq!(results.len(), 3);
    assert_eq!(results[0].path, path_a);
    assert_eq!(results[1].path, path_m);
    assert_eq!(results[2].path, path_z);
}

#[test]
fn scan_first_occurrence_wins_on_dedup() {
    let path = "/tmp/vac_test_first/x".to_string();

    let adapter1 = FixedAdapter { name: "first", targets: vec![path.clone()] };
    let adapter2 = FixedAdapter { name: "second", targets: vec![path.clone()] };

    let results = scan("/tmp", &[adapter1, adapter2]).unwrap();
    assert_eq!(results.len(), 1);
    assert_eq!(results[0].adapter, "first");
}

#[test]
fn merge_sorts_components_before_longer_names() {
    // "a/b" lies inside "a", so it sorts right after it, before "a-b".
    let merged = merge_results(vec![Ok(vec![
        target("/r/a-b", "x"),
        target("/r/a/b", "x"),
        target("/r/a", "x"),
    ])]);
    let paths: Vec<&str> = merged.iter().map(|t| t.path.as_str()).collect();
    assert_eq!(paths, vec!["/r/a", "/r/a/b", "/r/a-b"]);
}

#[test]
fn merge_skips_failed_results_and_keeps_first() {
    let merged = merge_results(vec![
        Ok(vec![target("/r/b", "one")]),
        Ok(vec![target("/r/b", "two"), target("/r/a", "two")]),
    ]);
    assert_eq!(merged.len(), 2);
    assert_eq!(merged[0].path, "/r/a");
    assert_eq!(merged[0].adapter, "two");
    assert_eq!(merged[1].path, "/r/b");
    assert_eq!(merged[1].adapter, "one");
}

fn enabled_cfg() -> ScanConfig {
    ScanConfig {
        no_size: false,
        node: true,
        cargo: true,
        python: true,
        go: true,
        gradle: true,
        maven: true,
        ocaml: true,
        gitignore: false,
    }
}

#[test]
fn build_adapters_follows_flags_in_order() {
    let mut cfg = enabled_cfg();
    cfg.python = false;
    cfg.gitignore = true;
    let kinds = build_adapters(&cfg);
    assert_eq!(
        kinds,
        vec![
            AdapterKind::Node,
            AdapterKind::Cargo,
            AdapterKind::Go,
            AdapterKind::Gradle,
            AdapterKind::Maven,
            AdapterKind::Ocaml,
            AdapterKind::Gitignore,
        ]
    );
    let names: Vec<&str> = kinds.iter().map(|k| k.name()).collect();
    assert_eq!(names, vec!["node", "cargo", "go", "gradle", "maven", "ocaml", "gitignore"]);
    assert!(kinds.iter().all(|k| k.is_safe() == (*k != AdapterKind::Gitignore)));
}

#[test]
fn scan_enabled_detects_mixed_targets_in_one_pass() {
    let dir = TempDir::new().unwrap();
    mkfile(dir.path(), "package.json", b"{}");
    mkdirs(dir.path(), &["node_modules"]);
    mkfile(dir.path(), "Cargo.toml", b"[package]");
    mkdirs(dir.path(), &["target"]);
    mkfile(dir.path(), "requirements.txt", b"flask");
    mkdirs(dir.path(), &[".venv"]);
    mkfile(dir.path(), "module.pyc", b"\x00");

    let results = scan_enabled(&s(dir.path()), &enabled_cfg()).unwrap();
    let adapters: Vec<_> = results.iter().map(|t| t.adapter).collect();

    assert!(adapters.contains(&"node"));
    assert!(adapters.contains(&"cargo"));
    assert!(adapters.contains(&"python"));
    assert!(results.iter().any(|t| t.path == s(&dir.path().join("node_modules"))));
    assert!(results.iter().any(|t| t.path == s(&dir.path().join("target"))));
    assert!(results.iter().any(|t| t.path == s(&dir.path().join(".venv"))));
    assert!(results.iter().any(|t| t.path == s(&dir.path().join("module.pyc"))));
}

#[test]
fn scan_enabled_priority_matches_adapter_order() {
    let dir = TempDir::new().unwrap();
    mkfile(dir.path(), "Cargo.toml", b"[package]");
    mkfile(dir.path(), "pom.xml", b"<project/>");
    mkdirs(dir.path(), &["target"]);
    mkfile(dir.path(), "setup.py", b"from setuptools import setup");
    mkfile(dir.path(), "build.gradle", b"plugins {}");
    mkdirs(dir.path(), &["build"]);

    let results = scan_enabled(&s(dir.path()), &enabled_cfg()).unwrap();
    let target = results.iter().find(|t| t.path == s(&dir.path().join("target"))).unwrap();
    let build = results.iter().find(|t| t.path == s(&dir.path().join("build"))).unwrap();

    assert_eq!(target.adapter, "cargo");
    assert_eq!(build.adapter, "python");
}

#[test]
fn scan_enabled_respects_disabled_flags() {
    let dir = TempDir::new().unwrap();
    mkfile(dir.path(), "package.json", b"{}");
    mkdirs(dir.path(), &["node_modules"]);

    let mut cfg = enabled_cfg();
    cfg.node = false;
    let results = scan_enabled(&s(dir.path()), &cfg).unwrap();
    assert!(results.is_empty());
}

#[test]
fn scan_enabled_with_no_size_sets_size_to_zero() {
    let dir = TempDir::new().unwrap();
    mkfile(dir.path(), "package.json", b"{}");
    let pkg = mkdirs(dir.path(), &["node_modules", "pkg"]);
    mkfile(&pkg, "index.js", b"x");

    let mut cfg = enabled_cfg();
    cfg.no_size = true;
    let results = scan_enabled(&s(dir.path()), &cfg).unwrap();
    assert_eq!(results.len(), 1);
    assert_eq!(results[0].path, s(&dir.path().join("node_modules")));
    assert_eq!(results[0].size, 0);
}

#[test]
fn scan_enabled_measures_sizes() {
    let dir = TempDir::new().unwrap();
    mkfile(dir.path(), "package.json", b"{}");
    let pkg = mkdirs(dir.path(), &["node_modules", "pkg"]);
    mkfile(&pkg, "index.js", b"12345");

    let results = scan_enabled(&s(dir.path()), &enabled_cfg()).unwrap();
    assert_eq!(results.len(), 1);
    assert_eq!(results[0].size, 5);
    assert_eq!(results[0].description, "Node.js dependencies (node_modules/)");
}

#[test]
fn scan_enabled_gradle_and_maven_and_ocaml() {
    let dir = TempDir::new().unwrap();
    let g = mkdirs(dir.path(), &["g"]);
    mkfile(&g, "build.gradle", b"plugins { id 'java' }");
    mkdirs(&g, &[".gradle", "8.0"]);
    mkdirs(&g, &["build", "classes"]);
    let m = mkdirs(dir.path(), &["m"]);
    mkfile(&m, "pom.xml", b"<project/>");
    mkdirs(&m, &["target", "classes"]);
    let o = mkdirs(dir.path(), &["o"]);
    mkfile(&o, "dune-project", b"(lang dune 3.0)");
    mkdirs(&o, &["_build"]);

    let results = scan_enabled(&s(dir.path()), &enabled_cfg()).unwrap();
    let got: Vec<(String, &str)> = results.iter().map(|t| (t.path.clone(), t.adapter)).collect();
    assert_eq!(
        got,
        vec![
            (s(&g.join(".gradle")), "gradle"),
            (s(&g.join("build")), "gradle"),
            (s(&m.join("target")), "maven"),
            (s(&o.join("_build")), "ocaml"),
        ]
    );
}

#[test]
fn scan_enabled_gitignore_when_enabled() {
    let dir = TempDir::new().unwrap();
    mkfile(dir.path(), ".gitignore", b"*.log\n");
    mkfile(dir.path(), "app.log", b"log");

    let results = scan_enabled(&s(dir.path()), &enabled_cfg()).unwrap();
    assert!(results.is_empty());

    let mut cfg = enabled_cfg();
    cfg.gitignore = true;
    let results = scan_enabled(&s(dir.path()), &cfg).unwrap();
    assert_eq!(results.len(), 1);
    assert_eq!(results[0].path, s(&dir.path().join("app.log")));
    assert_eq!(results[0].adapter, "gitignore");
}
