use std::io::Write;
use std::path::{Path, PathBuf};

use tempfile::{Builder, TempDir};
use vacuum::adapter::Adapter;
use vacuum::adapters::{GitignoreAdapter, GradleAdapter, MavenAdapter, OcamlAdapter, PythonAdapter};

fn s(p: &Path) -> String {
    p.to_string_lossy().into_owned()
}

/// Creates the directories `parent/names[0]/names[1]/...` and keeps them.
fn mkdirs(parent: &Path, names: &[&str]) -> PathBuf {
    let mut p = parent.to_path_buf();
    for name in names {
        let next = p.join(name);
        if !next.is_dir() {
            Builder::new()
                .prefix(name)
                .rand_bytes(0)
                .disable_cleanup(true)
                .tempdir_in(&p)
                .unwrap();
        }
        p = next;
    }
    p
}

/// Creates the file `parent/name` holding `content` and keeps it.
fn mkfile(parent: &Path, name: &str, content: &[u8]) -> PathBuf {
    let mut f = Builder::new()
        .prefix(name)
        .rand_bytes(0)
        .disable_cleanup(true)
        .tempfile_in(parent)
        .unwrap();
    f.write_all(content).unwrap();
    f.path().to_path_buf()
}

// ── python ───────────────────────────────────────────────────────────────────

#[test]
fn pycache_with_py_file_in_same_dir_detected() {
    let dir = TempDir::new().unwrap();
    mkfile(dir.path(), "main.py", b"print('hello')");
    mkdirs(dir.path(), &["__pycache__"]);

    let targets = PythonAdapter.scan(&s(dir.path())).unwrap();
    assert!(targets.iter().any(|t| t.path == s(&dir.path().join("__pycache__"))));
}

#[test]
fn pycache_with_pyproject_toml_in_ancestor_detected() {
    let dir = TempDir::new().unwrap();
    mkfile(dir.path(), "pyproject.toml", b"[project]");
    let subdir = mkdirs(dir.path(), &["src", "pkg"]);
    mkdirs(&subdir, &["__pycache__"]);

    let targets = PythonAdapter.scan(&s(dir.path())).unwrap();
    assert!(targets.iter().any(|t| t.path == s(&subdir.join("__pycache__"))));
}

#[test]
fn pycache_without_context_not_detected() {
    let dir = TempDir::new().unwrap();
    mkdirs(dir.path(), &["__pycache__"]);

    let targets = PythonAdapter.scan(&s(dir.path())).unwrap();
    assert!(
        targets.iter().all(|t| !t.path.ends_with("__pycache__")),
        "Should not detect __pycache__ without Python context"
    );
}

#[test]
fn pycache_with_context_four_levels_up_not_detected() {
    let dir = TempDir::new().unwrap();
    mkfile(dir.path(), "pyproject.toml", b"[project]");
    let deep = mkdirs(dir.path(), &["a", "b", "c", "d"]);
    mkdirs(&deep, &["__pycache__"]);

    let targets = PythonAdapter.scan(&s(dir.path())).unwrap();
    assert!(targets.iter().all(|t| t.path != s(&deep.join("__pycache__"))));
}

#[test]
fn pyc_file_detected() {
    let dir = TempDir::new().unwrap();
    let pyc = mkfile(dir.path(), "main.pyc", b"\x00\x00\x00\x00");

    let targets = PythonAdapter.scan(&s(dir.path())).unwrap();
    assert!(targets.iter().any(|t| t.path == s(&pyc)));
    let t = targets.iter().find(|t| t.path == s(&pyc)).unwrap();
    assert_eq!(t.size, 4);
    assert_eq!(t.description, "Python bytecode (.pyc)");
}

#[test]
fn venv_with_requirements_txt_detected() {
    let dir = TempDir::new().unwrap();
    mkfile(dir.path(), "requirements.txt", b"flask==2.0.0");
    mkdirs(dir.path(), &[".venv"]);

    let targets = PythonAdapter.scan(&s(dir.path())).unwrap();
    assert!(targets.iter().any(|t| t.path == s(&dir.path().join(".venv"))));
}

#[test]
fn plain_venv_with_requirements_txt_detected() {
    let dir = TempDir::new().unwrap();
    mkfile(dir.path(), "requirements.txt", b"django");
    mkdirs(dir.path(), &["venv"]);

    let targets = PythonAdapter.scan(&s(dir.path())).unwrap();
    assert!(targets.iter().any(|t| t.path == s(&dir.path().join("venv"))));
}

#[test]
fn venv_without_context_not_detected() {
    let dir = TempDir::new().unwrap();
    mkdirs(dir.path(), &[".venv"]);

    let targets = PythonAdapter.scan(&s(dir.path())).unwrap();
    assert!(targets.iter().all(|t| t.path != s(&dir.path().join(".venv"))));
}

#[test]
fn dist_with_setup_py_detected() {
    let dir = TempDir::new().unwrap();
    mkfile(dir.path(), "setup.py", b"from setuptools import setup");
    mkdirs(dir.path(), &["dist"]);

    let targets = PythonAdapter.scan(&s(dir.path())).unwrap();
    assert!(targets.iter().any(|t| t.path == s(&dir.path().join("dist"))));
}

#[test]
fn build_with_setup_cfg_detected() {
    let dir = TempDir::new().unwrap();
    mkfile(dir.path(), "setup.cfg", b"[metadata]");
    mkdirs(dir.path(), &["build"]);

    let targets = PythonAdapter.scan(&s(dir.path())).unwrap();
    assert!(targets.iter().any(|t| t.path == s(&dir.path().join("build"))));
}

#[test]
fn eggs_with_pyproject_detected() {
    let dir = TempDir::new().unwrap();
    mkfile(dir.path(), "pyproject.toml", b"[project]");
    mkdirs(dir.path(), &[".eggs"]);

    let targets = PythonAdapter.scan(&s(dir.path())).unwrap();
    assert!(targets.iter().any(|t| t.path == s(&dir.path().join(".eggs"))));
}

#[test]
fn contents_of_detected_venv_not_listed_separately() {
    let dir = TempDir::new().unwrap();
    mkfile(dir.path(), "requirements.txt", b"flask");
    let venv = mkdirs(dir.path(), &[".venv"]);
    mkdirs(&venv, &["lib"]);
    mkdirs(&venv, &["__pycache__"]);

    let targets = PythonAdapter.scan(&s(dir.path())).unwrap();
    let venv_count = targets.iter().filter(|t| t.path == s(&venv)).count();
    let inner_pycache_count = targets
        .iter()
        .filter(|t| t.path == s(&venv.join("__pycache__")))
        .count();
    assert_eq!(venv_count, 1);
    assert_eq!(inner_pycache_count, 0);
}

// ── gitignore ────────────────────────────────────────────────────────────────

#[test]
fn no_gitignore_returns_empty() {
    let dir = TempDir::new().unwrap();
    mkfile(dir.path(), "app.log", b"log");
    let targets = GitignoreAdapter.scan(&s(dir.path())).unwrap();
    assert!(targets.is_empty());
}

#[test]
fn gitignore_matching_file_detected() {
    let dir = TempDir::new().unwrap();
    mkfile(dir.path(), ".gitignore", b"*.log\n");
    mkfile(dir.path(), "app.log", b"log content");
    mkfile(dir.path(), "app.py", b"# not ignored");

    let targets = GitignoreAdapter.scan(&s(dir.path())).unwrap();
    assert!(targets.iter().any(|t| t.path == s(&dir.path().join("app.log"))));
    assert!(targets.iter().all(|t| t.path != s(&dir.path().join("app.py"))));
    let log = targets.iter().find(|t| t.path == s(&dir.path().join("app.log"))).unwrap();
    assert_eq!(log.description, "gitignore match: app.log");
    assert_eq!(log.adapter, "gitignore");
}

#[test]
fn gitignore_matching_directory_detected() {
    let dir = TempDir::new().unwrap();
    mkfile(dir.path(), ".gitignore", b"dist/\n");
    let dist = mkdirs(dir.path(), &["dist", "assets"]);
    let _ = dist;
    mkfile(&dir.path().join("dist"), "bundle.js", b"");

    let targets = GitignoreAdapter.scan(&s(dir.path())).unwrap();
    assert!(targets.iter().any(|t| t.path == s(&dir.path().join("dist"))));
}

#[test]
fn git_dir_excluded_even_if_gitignore_would_match() {
    let dir = TempDir::new().unwrap();
    mkfile(dir.path(), ".gitignore", b".git/\n");
    mkdirs(dir.path(), &[".git", "objects"]);

    let targets = GitignoreAdapter.scan(&s(dir.path())).unwrap();
    let git = s(&dir.path().join(".git"));
    assert!(targets.iter().all(|t| !t.path.starts_with(&git)));
}

#[test]
fn contents_of_matched_dir_not_listed_separately() {
    let dir = TempDir::new().unwrap();
    mkfile(dir.path(), ".gitignore", b"build/\n");
    mkdirs(dir.path(), &["build", "output"]);
    mkfile(&dir.path().join("build"), "app.js", b"");

    let targets = GitignoreAdapter.scan(&s(dir.path())).unwrap();
    let build = s(&dir.path().join("build"));
    let build_related: Vec<_> = targets.iter().filter(|t| t.path.starts_with(&build)).collect();
    assert_eq!(build_related.len(), 1);
    assert_eq!(build_related[0].path, build);
}

#[test]
fn multiple_patterns_each_matched() {
    let dir = TempDir::new().unwrap();
    mkfile(dir.path(), ".gitignore", b"*.log\n*.tmp\n");
    mkfile(dir.path(), "debug.log", b"");
    mkfile(dir.path(), "temp.tmp", b"");
    mkfile(dir.path(), "main.rs", b"");

    let targets = GitignoreAdapter.scan(&s(dir.path())).unwrap();
    assert!(targets.iter().any(|t| t.path == s(&dir.path().join("debug.log"))));
    assert!(targets.iter().any(|t| t.path == s(&dir.path().join("temp.tmp"))));
    assert!(targets.iter().all(|t| t.path != s(&dir.path().join("main.rs"))));
}

// ── ocaml ────────────────────────────────────────────────────────────────────

#[test]
fn build_dir_with_dune_project_detected() {
    let dir = TempDir::new().unwrap();
    mkfile(dir.path(), "dune-project", b"(lang dune 3.0)");
    mkdirs(dir.path(), &["_build"]);

    let targets = OcamlAdapter.scan(&s(dir.path())).unwrap();
    assert_eq!(targets.len(), 1);
    assert_eq!(targets[0].path, s(&dir.path().join("_build")));
    assert_eq!(targets[0].adapter, "ocaml");
}

#[test]
fn build_dir_without_dune_project_not_detected() {
    let dir = TempDir::new().unwrap();
    mkdirs(dir.path(), &["_build"]);

    let targets = OcamlAdapter.scan(&s(dir.path())).unwrap();
    assert!(targets.is_empty());
}

#[test]
fn multiple_projects_all_detected() {
    let dir = TempDir::new().unwrap();
    let project_a = mkdirs(dir.path(), &["project_a"]);
    let project_b = mkdirs(dir.path(), &["project_b"]);
    mkfile(&project_a, "dune-project", b"(lang dune 3.0)");
    mkdirs(&project_a, &["_build"]);
    mkfile(&project_b, "dune-project", b"(lang dune 3.0)");
    mkdirs(&project_b, &["_build"]);

    let targets = OcamlAdapter.scan(&s(dir.path())).unwrap();
    assert_eq!(targets.len(), 2);
}

#[test]
fn nested_build_dir_not_rescanned() {
    let dir = TempDir::new().unwrap();
    mkfile(dir.path(), "dune-project", b"(lang dune 3.0)");
    mkdirs(dir.path(), &["_build", "_build"]);

    let targets = OcamlAdapter.scan(&s(dir.path())).unwrap();
    assert_eq!(targets.len(), 1);
    assert_eq!(targets[0].path, s(&dir.path().join("_build")));
}

// ── gradle and maven ─────────────────────────────────────────────────────────

#[test]
fn gradle_dirs_beside_build_file_detected() {
    let dir = TempDir::new().unwrap();
    mkfile(dir.path(), "build.gradle", b"plugins { id 'java' }");
    mkdirs(dir.path(), &[".gradle", "8.0"]);
    let classes = mkdirs(dir.path(), &["build", "classes"]);
    mkfile(&classes, "App.class", b"cafebabe");

    let targets = GradleAdapter.scan(&s(dir.path())).unwrap();
    assert_eq!(targets.len(), 2);
    assert!(targets.iter().any(|t| t.path == s(&dir.path().join(".gradle"))));
    let build = targets.iter().find(|t| t.path == s(&dir.path().join("build"))).unwrap();
    assert_eq!(build.adapter, "gradle");
    assert_eq!(build.description, "Gradle build artifact (build/)");
    assert_eq!(build.size, 8);
}

#[test]
fn gradle_kotlin_build_file_is_context() {
    let dir = TempDir::new().unwrap();
    mkfile(dir.path(), "build.gradle.kts", b"plugins {}");
    mkdirs(dir.path(), &["build"]);

    let targets = GradleAdapter.scan(&s(dir.path())).unwrap();
    assert_eq!(targets.len(), 1);
    assert_eq!(targets[0].path, s(&dir.path().join("build")));
}

#[test]
fn gradle_build_without_build_file_not_detected() {
    let dir = TempDir::new().unwrap();
    mkdirs(dir.path(), &["build"]);
    mkdirs(dir.path(), &[".gradle"]);

    let targets = GradleAdapter.scan(&s(dir.path())).unwrap();
    assert!(targets.is_empty());
}

#[test]
fn maven_target_beside_pom_detected() {
    let dir = TempDir::new().unwrap();
    mkfile(dir.path(), "pom.xml", b"<project/>");
    let classes = mkdirs(dir.path(), &["target", "classes"]);
    mkfile(&classes, "App.class", b"cafebabe");

    let targets = MavenAdapter.scan(&s(dir.path())).unwrap();
    assert_eq!(targets.len(), 1);
    assert_eq!(targets[0].path, s(&dir.path().join("target")));
    assert_eq!(targets[0].adapter, "maven");
    assert_eq!(targets[0].size, 8);
}

#[test]
fn maven_target_without_pom_not_detected() {
    let dir = TempDir::new().unwrap();
    mkdirs(dir.path(), &["target"]);

    let targets = MavenAdapter.scan(&s(dir.path())).unwrap();
    assert!(targets.is_empty());
}
