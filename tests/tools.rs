use glue_gun::cargo::{BuildError, Tool};
use glue_gun::clean::{cargo_clean_args, glue_gun_clean};
use glue_gun::iso::{assembly_outcome, dir_creation_result, grub_config, grub_mkrescue_args, DirCreation};
use glue_gun::metadata::{CrateMetadata, PackageGraph};
use glue_gun::path::LocalPath;
use glue_gun::pipeline::StepOutcome;
use glue_gun::sym::{create_bochs_symfile, create_sym_file};
use glue_gun::workspace::{CliOptions, Manifest, Manifests};

fn p(s: &str) -> LocalPath {
    LocalPath::parse(s)
}

fn texts(v: &[String]) -> Vec<&str> {
    v.iter().map(|s| s.as_str()).collect()
}

fn manifest(name: &str, dir: &str) -> Manifest {
    let meta = CrateMetadata::new(
        PackageGraph {
            packages: vec![],
            workspace_members: vec![],
            target_directory: p(&format!("{}/target", dir)),
            has_workspace_metadata: false,
        },
        p(&format!("{}/Cargo.toml", dir)),
    );
    Manifest {
        crate_name: name.to_string(),
        crate_path: p(dir),
        cargo_toml: p(&format!("{}/Cargo.toml", dir)),
        target_dir: p(&format!("{}/target", dir)),
        meta,
    }
}

#[test]
fn sym_file_without_strip() {
    let mut job = create_sym_file(&p("/t/kernel"), &p("/t/kernel.sym"), false, true);
    assert_eq!(job.commands.len(), 1);
    let first = job.next_command().unwrap();
    assert_eq!(texts(&first), vec!["--only-keep-debug", "/t/kernel", "/t/kernel.sym"]);
    job.report(Some(0));
    assert!(job.next_command().is_none());
    assert!(matches!(job.outcome(), StepOutcome::Completed));
}

#[test]
fn sym_file_with_strip() {
    let mut job = create_sym_file(&p("/t/kernel"), &p("/t/bootloader.sym"), true, true);
    assert_eq!(job.commands.len(), 2);
    job.report(Some(0));
    let second = job.next_command().unwrap();
    assert_eq!(texts(&second), vec!["--strip-debug", "/t/kernel", "/t/kernel"]);
    job.report(Some(0));
    assert!(job.next_command().is_none());
    assert!(matches!(job.outcome(), StepOutcome::Completed));
}

#[test]
fn sym_file_missing_tool_runs_nothing() {
    let job = create_sym_file(&p("/t/kernel"), &p("/t/kernel.sym"), true, false);
    assert!(job.next_command().is_none());
    assert!(matches!(job.outcome(), StepOutcome::Failed(BuildError::ObjectToolMissing)));
}

#[test]
fn sym_file_failed_extraction_skips_strip() {
    let mut job = create_sym_file(&p("/t/kernel"), &p("/t/kernel.sym"), true, true);
    job.report(Some(3));
    assert!(job.next_command().is_none());
    assert!(matches!(
        job.outcome(),
        StepOutcome::Failed(BuildError::ObjectToolFailed { exit_code: Some(3) })
    ));
}

#[test]
fn sym_file_failed_strip_keeps_code() {
    let mut job = create_sym_file(&p("/t/kernel"), &p("/t/kernel.sym"), true, true);
    job.report(Some(0));
    job.report(None);
    assert!(matches!(job.outcome(), StepOutcome::Failed(BuildError::ObjectToolFailed { exit_code: None })));
}

#[test]
fn merge_args_name_each_file() {
    let merge = create_bochs_symfile(&vec![p("/t/a.sym"), p("/t/b.sym")], &p("/t/combined.bochsym"));
    assert_eq!(
        texts(&merge.args),
        vec!["--symfile", "/t/a.sym", "--symfile", "/t/b.sym", "-o", "/t/combined.bochsym"]
    );
}

#[test]
fn merge_tool_missing_is_no_failure() {
    let merge = create_bochs_symfile(&vec![p("/t/a.sym")], &p("/t/c.bochsym"));
    assert!(matches!(merge.finish(false, None), StepOutcome::OptionalToolMissing));
    assert!(matches!(merge.finish(true, Some(1)), StepOutcome::Failed(BuildError::ToolExitNonzero(Tool::Bochsym))));
    assert!(matches!(merge.finish(true, Some(0)), StepOutcome::Completed));
}

#[test]
fn assembly_outcomes() {
    assert!(matches!(assembly_outcome(false, true, true), StepOutcome::Failed(BuildError::Filesystem)));
    assert!(matches!(
        assembly_outcome(true, false, false),
        StepOutcome::Failed(BuildError::ToolMissing(Tool::GrubMkrescue))
    ));
    assert!(matches!(
        assembly_outcome(true, true, false),
        StepOutcome::Failed(BuildError::ToolExitNonzero(Tool::GrubMkrescue))
    ));
    assert!(matches!(assembly_outcome(true, true, true), StepOutcome::Completed));
}

#[test]
fn iso_tool_arguments_and_menu() {
    let args = grub_mkrescue_args(&p("/t/kernel.iso"), &p("/t/isofiles"));
    assert_eq!(texts(&args), vec!["-o", "/t/kernel.iso", "/t/isofiles"]);
    let cfg = grub_config();
    assert!(cfg.contains("set timeout=0"));
    assert!(cfg.contains("multiboot2 /boot/kernel.elf"));
}

#[test]
fn existing_directory_is_tolerated() {
    assert_eq!(dir_creation_result(DirCreation::Created), Ok(()));
    assert_eq!(dir_creation_result(DirCreation::AlreadyExists), Ok(()));
    assert_eq!(dir_creation_result(DirCreation::Failed), Err(BuildError::Filesystem));
}

#[test]
fn clean_args_orders_switches() {
    let names = vec!["a".to_string(), "b".to_string()];
    let args = cargo_clean_args(Some(&names), true, true);
    assert_eq!(texts(&args), vec!["clean", "--package", "a", "--package", "b", "-vv", "--release"]);
    assert_eq!(texts(&cargo_clean_args(None, false, false)), vec!["clean"]);
}

#[test]
fn clean_limits_to_each_package() {
    let m = Manifests::new(manifest("kernel", "/w/kernel"), manifest("bootloader", "/w/boot"));
    let inv = glue_gun_clean(&m, CliOptions::from_flags(false, 0), false);
    assert_eq!(inv.len(), 2);
    assert_eq!(inv[0].crate_path.to_text(), "/w/kernel");
    assert_eq!(texts(&inv[0].args), vec!["clean", "--package", "kernel"]);
    assert_eq!(inv[1].crate_path.to_text(), "/w/boot");
    assert_eq!(texts(&inv[1].args), vec!["clean", "--package", "bootloader"]);
}

#[test]
fn clean_all_cleans_everything() {
    let m = Manifests::new(manifest("kernel", "/w/kernel"), manifest("bootloader", "/w/boot"));
    let inv = glue_gun_clean(&m, CliOptions::from_flags(true, 2), true);
    assert_eq!(texts(&inv[0].args), vec!["clean", "-vv", "--release"]);
    assert_eq!(texts(&inv[1].args), vec!["clean", "-vv", "--release"]);
}
