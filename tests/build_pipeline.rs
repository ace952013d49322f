use glue_gun::cargo::{
    cargo_build_args, executable_of_record, executables_from_output, has_bounded_digit_runs, kernel_executable, BuildConfig,
    BuildError,
};
use glue_gun::iso::iso_layout;
use glue_gun::path::LocalPath;
use glue_gun::pipeline::{BuildAction, BuildPipeline, Harness, Profile, Stage, StepOutcome};
use glue_gun::workspace::CliOptions;

fn p(s: &str) -> LocalPath {
    LocalPath::parse(s)
}

fn texts(v: &[String]) -> Vec<&str> {
    v.iter().map(|s| s.as_str()).collect()
}

fn start(options: CliOptions) -> BuildPipeline {
    let config = BuildConfig::from_override(None);
    BuildPipeline::new(&p("/w/kernel/target/x86_64-os/debug/kernel"), &p("/w/kernel"), &p("/w/boot"), config, &options)
        .unwrap()
}

#[test]
fn build_args_default() {
    let args = cargo_build_args(None, false, false, None);
    assert_eq!(texts(&args), vec!["build", "--message-format", "json"]);
}

#[test]
fn build_args_with_override_and_switches() {
    let config = BuildConfig::from_override(Some(vec!["xbuild".to_string(), "--target".to_string(), "x.json".to_string()]));
    let features = vec!["binary".to_string(), "extra".to_string()];
    let args = cargo_build_args(Some(&config), true, true, Some(&features));
    assert_eq!(
        texts(&args),
        vec!["xbuild", "--target", "x.json", "--features=binary,extra", "--release", "-vv", "--message-format", "json"]
    );
}

#[test]
fn output_records_yield_executables_in_order() {
    let out = "{\"reason\":\"compiler-artifact\",\"executable\":null}\n\
               {\"reason\":\"compiler-artifact\",\"executable\":\"/w/t/debug/kernel\"}\n\
               {\"reason\":\"build-finished\",\"success\":true}\n\
               {\"executable\":\"/w/t/debug/other\"}\n";
    let exes: Vec<String> = executables_from_output(out).unwrap().iter().map(|e| e.to_text()).collect();
    assert_eq!(exes, vec!["/w/t/debug/kernel".to_string(), "/w/t/debug/other".to_string()]);
}

#[test]
fn output_without_final_newline_and_empty_output() {
    let exes = executables_from_output("{\"executable\":\"/k\"}").unwrap();
    assert_eq!(exes.len(), 1);
    assert_eq!(exes[0].to_text(), "/k");
    assert!(executables_from_output("").unwrap().is_empty());
}

#[test]
fn malformed_output_is_an_error() {
    assert_eq!(executables_from_output("not json\n").unwrap_err(), BuildError::MalformedBuildOutput);
    assert_eq!(
        executables_from_output("{\"executable\":\"/k\"}\n\n{}\n").unwrap_err(),
        BuildError::MalformedBuildOutput
    );
}

#[test]
fn record_outcomes() {
    assert_eq!(executable_of_record(None).unwrap_err(), BuildError::MalformedBuildOutput);
    assert!(executable_of_record(Some(None)).unwrap().is_none());
    assert!(executable_of_record(Some(Some(String::new()))).unwrap().is_none());
    let e = executable_of_record(Some(Some("target/debug/kernel".to_string()))).unwrap().unwrap();
    assert_eq!(e.to_text(), "target/debug/kernel");
}

#[test]
fn kernel_build_needs_one_executable() {
    assert_eq!(kernel_executable(vec![p("/k")]).unwrap().to_text(), "/k");
    assert_eq!(kernel_executable(vec![]).unwrap_err(), BuildError::KernelProducedMultipleArtifacts(0));
    assert_eq!(
        kernel_executable(vec![p("/a"), p("/b")]).unwrap_err(),
        BuildError::KernelProducedMultipleArtifacts(2)
    );
}

#[test]
fn pipeline_rejects_empty_executable_path() {
    let r = BuildPipeline::new(&p(""), &p("/w/kernel"), &p("/w/boot"), BuildConfig::from_override(None), &CliOptions::from_flags(false, 0));
    assert_eq!(r.err(), Some(BuildError::IncompleteExecutablePath));
}

#[test]
fn pipeline_full_run_places_outputs() {
    let mut b = start(CliOptions::from_flags(false, 0));
    match b.action() {
        BuildAction::ExtractSymbols { input, output, strip_input } => {
            assert_eq!(input.to_text(), "/w/kernel/target/x86_64-os/debug/kernel");
            assert_eq!(output.to_text(), "/w/kernel/target/x86_64-os/debug/kernel.sym");
            assert!(!strip_input);
        }
        other => panic!("unexpected {:?}", other),
    }
    b.advance(StepOutcome::Completed);
    match b.action() {
        BuildAction::BuildCarrier { crate_path, args, env } => {
            assert_eq!(crate_path.to_text(), "/w/boot");
            assert_eq!(texts(&args), vec!["build", "--features=binary", "--message-format", "json"]);
            assert_eq!(env, vec![("KERNEL".to_string(), "/w/kernel/target/x86_64-os/debug/kernel".to_string())]);
        }
        other => panic!("unexpected {:?}", other),
    }
    b.advance(StepOutcome::Executables(vec![p("/w/boot/target/x86_64-os/debug/bootloader")]));
    match b.action() {
        BuildAction::Rename { from, to } => {
            assert_eq!(from.to_text(), "/w/boot/target/x86_64-os/debug/bootloader");
            assert_eq!(to.to_text(), "/w/boot/target/x86_64-os/debug/kernel");
        }
        other => panic!("unexpected {:?}", other),
    }
    b.advance(StepOutcome::Completed);
    match b.action() {
        BuildAction::ExtractSymbols { input, output, strip_input } => {
            assert_eq!(input.to_text(), "/w/boot/target/x86_64-os/debug/kernel");
            assert_eq!(output.to_text(), "/w/kernel/target/x86_64-os/debug/bootloader.sym");
            assert!(strip_input);
        }
        other => panic!("unexpected {:?}", other),
    }
    b.advance(StepOutcome::Completed);
    match b.action() {
        BuildAction::MergeSymbols { symbol_files, output } => {
            let files: Vec<String> = symbol_files.iter().map(|f| f.to_text()).collect();
            assert_eq!(
                files,
                vec![
                    "/w/kernel/target/x86_64-os/debug/bootloader.sym".to_string(),
                    "/w/kernel/target/x86_64-os/debug/kernel.sym".to_string()
                ]
            );
            assert_eq!(output.to_text(), "/w/kernel/target/x86_64-os/debug/combined.bochsym");
        }
        other => panic!("unexpected {:?}", other),
    }
    b.advance(StepOutcome::OptionalToolMissing);
    match b.action() {
        BuildAction::AssembleIso { iso_dir, iso_img, executable } => {
            assert_eq!(iso_dir.to_text(), "/w/kernel/target/x86_64-os/debug/isofiles");
            assert_eq!(iso_img.to_text(), "/w/kernel/target/x86_64-os/debug/kernel.iso");
            assert_eq!(executable.to_text(), "/w/boot/target/x86_64-os/debug/kernel");
            let layout = iso_layout(&iso_dir);
            assert_eq!(layout.kernel_elf.to_text(), "/w/kernel/target/x86_64-os/debug/isofiles/boot/kernel.elf");
            assert_eq!(layout.grub_cfg.to_text(), "/w/kernel/target/x86_64-os/debug/isofiles/boot/grub/grub.cfg");
        }
        other => panic!("unexpected {:?}", other),
    }
    b.advance(StepOutcome::Completed);
    match b.action() {
        BuildAction::Finished(meta) => {
            assert_eq!(meta.iso_img.to_text(), "/w/kernel/target/x86_64-os/debug/kernel.iso");
            assert_eq!(meta.variant.profile, Profile::Debug);
            assert_eq!(meta.variant.harness, Harness::Normal);
            assert_eq!(texts(&meta.config.build_command), vec!["build"]);
        }
        other => panic!("unexpected {:?}", other),
    }
    b.advance(StepOutcome::Completed);
    assert_eq!(b.stage, Stage::Finished);
}

fn start_at(exec: &str, options: CliOptions) -> BuildPipeline {
    BuildPipeline::new(&p(exec), &p("/w/kernel"), &p("/w/boot"), BuildConfig::from_override(None), &options).unwrap()
}

fn carrier_args(b: &mut BuildPipeline) -> Vec<String> {
    b.advance(StepOutcome::Completed);
    match b.action() {
        BuildAction::BuildCarrier { args, .. } => args,
        other => panic!("unexpected {:?}", other),
    }
}

#[test]
fn release_directory_reaches_the_bootloader_build() {
    let mut b = start_at("/w/kernel/target/x86_64-os/release/kernel", CliOptions::from_flags(false, 2));
    assert_eq!(b.plan.variant.profile, Profile::Release);
    let args = carrier_args(&mut b);
    assert_eq!(texts(&args), vec!["build", "--features=binary", "--release", "-vv", "--message-format", "json"]);
}

#[test]
fn release_flag_alone_does_not_make_a_release_bootloader() {
    let mut b = start_at("/w/kernel/target/x86_64-os/debug/kernel", CliOptions::from_flags(true, 0));
    assert_eq!(b.plan.variant.profile, Profile::Debug);
    let args = carrier_args(&mut b);
    assert_eq!(texts(&args), vec!["build", "--features=binary", "--message-format", "json"]);
}

#[test]
fn relative_kernel_path_is_joined_to_kernel_crate() {
    let b = BuildPipeline::new(
        &p("target/debug/kernel"),
        &p("/w/kernel"),
        &p("/w/boot"),
        BuildConfig::from_override(None),
        &CliOptions::from_flags(false, 0),
    )
    .unwrap();
    assert_eq!(b.plan.carrier_env[0].1, "/w/kernel/target/debug/kernel");
}

fn run_to_carrier_build(exes: Vec<LocalPath>) -> BuildPipeline {
    let mut b = start(CliOptions::from_flags(false, 0));
    b.advance(StepOutcome::Completed);
    b.advance(StepOutcome::Executables(exes));
    b
}

#[test]
fn two_carrier_executables_stop_the_build() {
    let mut b = run_to_carrier_build(vec![p("/w/b/one"), p("/w/b/two")]);
    match b.action() {
        BuildAction::Failed(e) => assert_eq!(e, BuildError::CarrierProducedMultipleArtifacts(2)),
        other => panic!("unexpected {:?}", other),
    }
    for _ in 0..5 {
        b.advance(StepOutcome::Completed);
        assert!(matches!(b.action(), BuildAction::Failed(BuildError::CarrierProducedMultipleArtifacts(2))));
    }
}

#[test]
fn no_carrier_executable_stops_the_build() {
    let mut b = run_to_carrier_build(vec![]);
    assert!(matches!(b.action(), BuildAction::Failed(BuildError::CarrierProducedMultipleArtifacts(0))));
    b.advance(StepOutcome::OptionalToolMissing);
    assert_eq!(b.stage, Stage::Failed(BuildError::CarrierProducedMultipleArtifacts(0)));
}

#[test]
fn step_failure_is_final() {
    let mut b = start(CliOptions::from_flags(false, 0));
    b.advance(StepOutcome::Failed(BuildError::ObjectToolMissing));
    assert!(matches!(b.action(), BuildAction::Failed(BuildError::ObjectToolMissing)));
    b.advance(StepOutcome::Completed);
    assert!(matches!(b.action(), BuildAction::Failed(BuildError::ObjectToolMissing)));
}

#[test]
fn outcome_out_of_place_is_rejected() {
    let mut b = start(CliOptions::from_flags(false, 0));
    b.advance(StepOutcome::Executables(vec![p("/x")]));
    assert_eq!(b.stage, Stage::Failed(BuildError::UnexpectedOutcome));
}

#[test]
fn rerun_asks_for_the_same_steps() {
    let outcomes = || {
        vec![
            StepOutcome::Completed,
            StepOutcome::Executables(vec![p("/w/boot/target/x86_64-os/debug/bootloader")]),
            StepOutcome::Completed,
            StepOutcome::Completed,
            StepOutcome::Completed,
            StepOutcome::Completed,
        ]
    };
    let run = || {
        let mut b = start(CliOptions::from_flags(false, 1));
        let mut log = vec![format!("{:?}", b.action())];
        for o in outcomes() {
            b.advance(o);
            log.push(format!("{:?}", b.action()));
        }
        log
    };
    let first = run();
    let second = run();
    assert_eq!(first, second);
    assert!(first.last().unwrap().starts_with("Finished"));
}

#[test]
fn overlong_digit_run_is_malformed_not_a_panic() {
    let line = format!("{{\"x\":0.{}}}\n", "0".repeat(32769));
    assert_eq!(executables_from_output(&line).unwrap_err(), BuildError::MalformedBuildOutput);
    assert!(!has_bounded_digit_runs(&"1".repeat(32001)));
}

#[test]
fn digit_run_at_the_limit_is_read() {
    let line = format!("{{\"executable\":\"/k\",\"x\":\"{}\"}}\n", "7".repeat(32000));
    assert!(has_bounded_digit_runs(&line));
    let exes = executables_from_output(&line).unwrap();
    assert_eq!(exes.len(), 1);
    assert_eq!(exes[0].to_text(), "/k");
}
