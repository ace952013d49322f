use glue_gun::metadata::{CrateMetadata, DependencyInfo, LocalDependencyWalk, PackageGraph, PackageInfo, ResolveError};
use glue_gun::path::LocalPath;
use glue_gun::workspace::{manifest_path_in, CliOptions, Manifest};

fn dep(name: &str, rename: Option<&str>, path: Option<&str>) -> DependencyInfo {
    DependencyInfo {
        name: name.to_string(),
        rename: rename.map(|r| r.to_string()),
        path: path.map(LocalPath::parse),
    }
}

fn pkg(id: &str, name: &str, dir: &str, deps: Vec<DependencyInfo>) -> PackageInfo {
    PackageInfo {
        id: id.to_string(),
        name: name.to_string(),
        manifest_path: LocalPath::parse(&format!("{}/Cargo.toml", dir)),
        dependencies: deps,
    }
}

fn kernel_graph(members: Vec<&str>, workspace_meta: bool) -> CrateMetadata {
    let kernel = pkg(
        "kernel 0.1.0 (path+file:///w/kernel)",
        "kernel",
        "/w/kernel",
        vec![
            dep("log", None, None),
            dep("my_bootloader", Some("bootloader"), Some("/w/boot")),
            dep("util", None, Some("/w/util")),
            dep("util2", None, Some("/w/util")),
        ],
    );
    let boot = pkg("my_bootloader 0.1.0 (path+file:///w/boot)", "my_bootloader", "/w/boot", vec![]);
    let util = pkg("util 0.1.0 (path+file:///w/util)", "util", "/w/util", vec![]);
    let graph = PackageGraph {
        packages: vec![kernel, boot, util],
        workspace_members: members.into_iter().map(|m| m.to_string()).collect(),
        target_directory: LocalPath::parse("/w/kernel/target"),
        has_workspace_metadata: workspace_meta,
    };
    CrateMetadata::new(graph, LocalPath::parse("/w/kernel/Cargo.toml"))
}

#[test]
fn dependency_found_through_rename() {
    let meta = kernel_graph(vec!["kernel 0.1.0 (path+file:///w/kernel)"], false);
    let dir = meta.get_crate_of_dependency("bootloader").unwrap();
    assert_eq!(dir.to_text(), "/w/boot");
}

#[test]
fn renamed_dependency_not_found_under_its_package_name() {
    let meta = kernel_graph(vec!["kernel 0.1.0 (path+file:///w/kernel)"], false);
    assert_eq!(meta.get_crate_of_dependency("my_bootloader").unwrap_err(), ResolveError::DependencyNotFound);
    assert_eq!(meta.get_crate_of_dependency("missing").unwrap_err(), ResolveError::DependencyNotFound);
}

#[test]
fn unknown_manifest_is_reported() {
    let mut meta = kernel_graph(vec!["kernel 0.1.0 (path+file:///w/kernel)"], false);
    meta.cargo_toml = LocalPath::parse("/elsewhere/Cargo.toml");
    assert_eq!(meta.get_crate_of_dependency("bootloader").unwrap_err(), ResolveError::DependencyNotFound);
    assert_eq!(meta.get_local_dependencies().unwrap_err(), ResolveError::ManifestNotFound);
}

#[test]
fn crate_names_follow_members() {
    let meta = kernel_graph(
        vec![
            "kernel 0.1.0 (path+file:///w/kernel)",
            "  path+file:///w/x#x@0.2.0\t",
            "util 0.1.0 (path+file:///w/util)",
            "   ",
        ],
        false,
    );
    assert_eq!(
        meta.get_crate_names(),
        vec!["kernel".to_string(), "path+file:///w/x#x@0.2.0".to_string(), "util".to_string(), String::new()]
    );
    assert_eq!(meta.get_target_dir().to_text(), "/w/kernel/target");
}

#[test]
fn local_dependencies_once_each() {
    let meta = kernel_graph(vec!["kernel 0.1.0 (path+file:///w/kernel)"], false);
    let deps: Vec<String> = meta.get_local_dependencies().unwrap().iter().map(|p| p.to_text()).collect();
    assert_eq!(deps, vec!["/w/boot".to_string(), "/w/util".to_string()]);
}

#[test]
fn manifest_needs_exactly_one_binary() {
    let meta = kernel_graph(vec!["kernel 0.1.0 (path+file:///w/kernel)", "util 0.1.0 (path+file:///w/util)"], false);
    let err = Manifest::from_metadata(LocalPath::parse("/w/kernel"), meta).unwrap_err();
    assert_eq!(err, ResolveError::MultipleBinaries(2));
    let meta = kernel_graph(vec![], false);
    let err = Manifest::from_metadata(LocalPath::parse("/w/kernel"), meta).unwrap_err();
    assert_eq!(err, ResolveError::MultipleBinaries(0));
}

#[test]
fn manifest_rejects_workspace_metadata() {
    let meta = kernel_graph(vec!["kernel 0.1.0 (path+file:///w/kernel)"], true);
    let err = Manifest::from_metadata(LocalPath::parse("/w/kernel"), meta).unwrap_err();
    assert_eq!(err, ResolveError::WorkspaceUnsupported);
}

#[test]
fn manifest_resolves_kernel_and_bootloader() {
    let meta = kernel_graph(vec!["kernel 0.1.0 (path+file:///w/kernel)"], false);
    let m = Manifest::from_metadata(LocalPath::parse("/w/kernel"), meta).unwrap();
    assert_eq!(m.crate_name, "kernel");
    assert_eq!(m.cargo_toml.to_text(), "/w/kernel/Cargo.toml");
    assert_eq!(m.target_dir.to_text(), "/w/kernel/target");
    assert_eq!(m.bootloader_crate_path().unwrap().to_text(), "/w/boot");
    assert_eq!(manifest_path_in(&LocalPath::parse("/w/boot")).to_text(), "/w/boot/Cargo.toml");
}

#[test]
fn cli_options_from_flags() {
    let o = CliOptions::from_flags(true, 0);
    assert!(o.is_release && !o.is_verbose && !o.is_very_verbose);
    let o = CliOptions::from_flags(false, 1);
    assert!(!o.is_release && o.is_verbose && !o.is_very_verbose);
    let o = CliOptions::from_flags(false, 3);
    assert!(o.is_verbose && o.is_very_verbose);
}

#[test]
fn walk_visits_shared_subtree_once() {
    // a -> b, a -> c, b -> d, c -> d
    let meta = CrateMetadata::new(
        PackageGraph {
            packages: vec![pkg("a", "a", "/w/a", vec![])],
            workspace_members: vec!["a".to_string()],
            target_directory: LocalPath::parse("/w/a/target"),
            has_workspace_metadata: false,
        },
        LocalPath::parse("/w/a/Cargo.toml"),
    );
    let mut walk = LocalDependencyWalk::start(&meta.cargo_toml);
    let mut queried = Vec::new();
    while let Some(m) = walk.next_manifest() {
        let text = m.to_text();
        let deps = match text.as_str() {
            "/w/a/Cargo.toml" => vec![dep("b", None, Some("/w/b")), dep("c", None, Some("/w/c")), dep("log", None, None)],
            "/w/b/Cargo.toml" => vec![dep("d", None, Some("/w/d"))],
            "/w/c/Cargo.toml" => vec![dep("d", None, Some("/w/d"))],
            _ => vec![],
        };
        walk.record(&deps);
        queried.push(text);
        assert!(queried.len() <= 10, "walk does not end");
    }
    assert!(walk.is_done());
    assert_eq!(
        queried,
        vec!["/w/a/Cargo.toml", "/w/b/Cargo.toml", "/w/c/Cargo.toml", "/w/d/Cargo.toml"]
    );
    let found: Vec<(String, String)> =
        walk.dependencies().iter().map(|d| (d.name.clone(), d.path.to_text())).collect();
    assert_eq!(
        found,
        vec![
            ("b".to_string(), "/w/b".to_string()),
            ("c".to_string(), "/w/c".to_string()),
            ("d".to_string(), "/w/d".to_string()),
        ]
    );
}

#[test]
fn walk_ends_on_a_cycle() {
    let meta = CrateMetadata::new(
        PackageGraph {
            packages: vec![],
            workspace_members: vec![],
            target_directory: LocalPath::parse("/w/a/target"),
            has_workspace_metadata: false,
        },
        LocalPath::parse("/w/a/Cargo.toml"),
    );
    let mut walk = LocalDependencyWalk::start(&meta.cargo_toml);
    let mut steps = 0;
    while let Some(m) = walk.next_manifest() {
        let deps = if m.to_text() == "/w/a/Cargo.toml" {
            vec![dep("b", None, Some("/w/b"))]
        } else {
            vec![dep("a", None, Some("/w/a"))]
        };
        walk.record(&deps);
        steps += 1;
        assert!(steps <= 10, "walk does not end");
    }
    assert_eq!(steps, 2);
    assert_eq!(walk.dependencies().len(), 2);
}

#[test]
fn closure_follows_graph_once_each() {
    // a -> b, a -> c, b -> d, c -> d, d -> a
    let meta = CrateMetadata::new(
        PackageGraph {
            packages: vec![
                pkg("a", "a", "/w/a", vec![dep("b", None, Some("/w/b")), dep("c", None, Some("/w/c"))]),
                pkg("b", "b", "/w/b", vec![dep("d", None, Some("/w/d")), dep("log", None, None)]),
                pkg("c", "c", "/w/c", vec![dep("d", None, Some("/w/d"))]),
                pkg("d", "d", "/w/d", vec![dep("a", None, Some("/w/a"))]),
            ],
            workspace_members: vec!["a 0.1.0 (path+file:///w/a)".to_string()],
            target_directory: LocalPath::parse("/w/a/target"),
            has_workspace_metadata: false,
        },
        LocalPath::parse("/w/a/Cargo.toml"),
    );
    let found: Vec<(String, String)> =
        meta.get_recurisve_local_dependencies().iter().map(|d| (d.name.clone(), d.path.to_text())).collect();
    assert_eq!(
        found,
        vec![
            ("b".to_string(), "/w/b".to_string()),
            ("c".to_string(), "/w/c".to_string()),
            ("d".to_string(), "/w/d".to_string()),
            ("a".to_string(), "/w/a".to_string()),
        ]
    );
}

#[test]
fn closure_of_package_outside_graph_is_empty() {
    let meta = kernel_graph(vec!["kernel 0.1.0 (path+file:///w/kernel)"], false);
    let mut elsewhere = meta.clone();
    elsewhere.cargo_toml = LocalPath::parse("/nowhere/Cargo.toml");
    assert!(elsewhere.get_recurisve_local_dependencies().is_empty());
    let found: Vec<String> = meta.get_recurisve_local_dependencies().iter().map(|d| d.name.clone()).collect();
    assert_eq!(found, vec!["my_bootloader".to_string(), "util".to_string(), "util2".to_string()]);
}
