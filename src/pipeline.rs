//! The build pipeline: from a built kernel to a bootable image, one external
//! step at a time.
//!
//! The pipeline decides; the caller acts. `action` names the step to perform
//! now, and `advance` takes its outcome. The steps run in a fixed order and
//! the first failure ends the run.

use vstd::prelude::*;
use crate::cargo::{BuildConfig, BuildError, build_args_spec, cargo_build_args, feature_list};
use crate::path::{
    LocalPath, PathView, child_spec, ends_with_spec, file_name_spec, file_stem, join_spec,
    name_has_prefix, parent_spec, render_spec, stem_spec,
};
use crate::text::texts_view;
use crate::workspace::CliOptions;

verus! {

/// Name prefix of the directories that test harnesses for documentation are
/// built in.
pub const TEST_HARNESS_PREFIX: &'static str = "rustdoctest";

/// Last component of the directory that test executables are built in.
pub const DEPENDENCY_ARTIFACTS: &'static str = "deps";

/// Last component of the output directory of an optimised build.
pub const RELEASE_DIR: &'static str = "release";

/// Feature of the bootloader package that embeds the kernel.
pub const EMBED_FEATURE: &'static str = "binary";

/// Variable through which the bootloader build learns where the kernel is.
pub const KERNEL_ENV_KEY: &'static str = "KERNEL";

/// Whether a build is optimised.
#[derive(Debug, Clone, Copy, PartialEq, Eq, Structural)]
pub enum Profile {
    Debug,
    Release,
}

/// Whether a build is a test harness.
#[derive(Debug, Clone, Copy, PartialEq, Eq, Structural)]
pub enum Harness {
    Normal,
    TestHarness,
}

/// The kind of a build, read off its output directory.
#[derive(Debug, Clone, Copy, PartialEq, Eq, Structural)]
pub struct BuildVariant {
    pub profile: Profile,
    pub harness: Harness,
}

/// The variant of a build whose executable lies in `dir`: an optimised build
/// where the last component is `release`; a test harness where the last
/// component starts with the documentation-test prefix or is `deps`.
pub open spec fn variant_spec(dir: PathView) -> BuildVariant {
    let doc_test = match file_name_spec(dir) {
        Some(n) => TEST_HARNESS_PREFIX@.len() <= n.len() && n.subrange(
            0,
            TEST_HARNESS_PREFIX@.len() as int,
        ) == TEST_HARNESS_PREFIX@,
        None => false,
    };
    BuildVariant {
        profile: if ends_with_spec(dir, RELEASE_DIR@) {
            Profile::Release
        } else {
            Profile::Debug
        },
        harness: if doc_test || ends_with_spec(dir, DEPENDENCY_ARTIFACTS@) {
            Harness::TestHarness
        } else {
            Harness::Normal
        },
    }
}

/// Classifies the build whose executable lies in `dir`.
pub fn classify_variant(dir: &LocalPath) -> (r: BuildVariant)
    ensures
        r == variant_spec(dir@),
{
    let release = dir.ends_with(RELEASE_DIR);
    let doc_test = match dir.file_name() {
        Some(n) => name_has_prefix(n.as_str(), TEST_HARNESS_PREFIX),
        None => false,
    };
    let test = doc_test || dir.ends_with(DEPENDENCY_ARTIFACTS);
    BuildVariant {
        profile: if release {
            Profile::Release
        } else {
            Profile::Debug
        },
        harness: if test {
            Harness::TestHarness
        } else {
            Harness::Normal
        },
    }
}

impl BuildVariant {
    /// Whether the build is a test harness.
    pub fn is_test(&self) -> (r: bool)
        ensures
            r == (self.harness == Harness::TestHarness),
    {
        match self.harness {
            Harness::TestHarness => true,
            Harness::Normal => false,
        }
    }

    /// Whether the build is optimised.
    pub fn is_release(&self) -> (r: bool)
        ensures
            r == (self.profile == Profile::Release),
    {
        match self.profile {
            Profile::Release => true,
            Profile::Debug => false,
        }
    }
}

/// What a finished build hands on.
#[derive(Debug, Clone)]
pub struct BuildMetadata {
    pub config: BuildConfig,
    pub iso_img: LocalPath,
    pub variant: BuildVariant,
}

/// Everything the steps of one build need, fixed when it starts.
#[derive(Debug, Clone)]
pub struct BuildPlan {
    /// The kernel executable.
    pub kernel_exec: LocalPath,
    /// Its file name, which the merged executable takes over.
    pub kernel_file_name: String,
    /// The directory of the kernel executable, where the outputs go.
    pub target_dir: LocalPath,
    /// `<kernel file name>.sym` in the target directory.
    pub kernel_sym: LocalPath,
    /// `bootloader.sym` in the target directory.
    pub bootloader_sym: LocalPath,
    /// `combined.bochsym` in the target directory.
    pub combined_sym: LocalPath,
    /// `isofiles` in the target directory.
    pub iso_dir: LocalPath,
    /// `<kernel file stem>.iso` in the target directory.
    pub iso_img: LocalPath,
    /// The bootloader package's directory, where its build runs.
    pub bootloader_crate: LocalPath,
    /// Arguments of the bootloader build.
    pub carrier_args: Vec<String>,
    /// Environment bindings of the bootloader build.
    pub carrier_env: Vec<(String, String)>,
    pub config: BuildConfig,
    pub variant: BuildVariant,
}

/// The views of environment bindings.
pub open spec fn env_view(v: Seq<(String, String)>) -> Seq<(Seq<char>, Seq<char>)> {
    v.map_values(|b: (String, String)| (b.0@, b.1@))
}

/// Holds of a plan made for the kernel executable `exec`, built in the package
/// directory `kernel_crate`, with the bootloader package in `bootloader_crate`.
/// The bootloader is built optimised exactly where the kernel's directory
/// says the kernel was: the variant decides, not the options.
pub open spec fn plan_spec(
    p: BuildPlan,
    exec: PathView,
    kernel_crate: PathView,
    bootloader_crate: PathView,
    command: Seq<Seq<char>>,
    options: CliOptions,
) -> bool {
    let dir = parent_spec(exec)->0;
    let name = file_name_spec(exec)->0;
    &&& p.kernel_exec@ == exec
    &&& p.kernel_file_name@ == name
    &&& p.target_dir@ == dir
    &&& p.kernel_sym@ == child_spec(dir, name + ".sym"@)
    &&& p.bootloader_sym@ == child_spec(dir, "bootloader.sym"@)
    &&& p.combined_sym@ == child_spec(dir, "combined.bochsym"@)
    &&& p.iso_dir@ == child_spec(dir, "isofiles"@)
    &&& p.iso_img@ == child_spec(dir, stem_spec(name) + ".iso"@)
    &&& p.bootloader_crate@ == bootloader_crate
    &&& texts_view(p.carrier_args@) == build_args_spec(
        Some(command),
        variant_spec(dir).profile == Profile::Release,
        options.is_very_verbose,
        Some(seq![EMBED_FEATURE@]),
    )
    &&& env_view(p.carrier_env@) == seq![
        (KERNEL_ENV_KEY@, render_spec(join_spec(kernel_crate, exec))),
    ]
    &&& texts_view(p.config.build_command@) == command
    &&& p.variant == variant_spec(dir)
}

/// Where a build stands.
#[derive(Debug, Clone, Copy, PartialEq, Eq, Structural)]
pub enum Stage {
    /// Copy the kernel's debug symbols out.
    KernelSymbols,
    /// Build the bootloader with the kernel embedded.
    CarrierBuild,
    /// Give the merged executable the kernel's file name.
    Rename,
    /// Copy the merged executable's debug symbols out and strip them.
    CarrierSymbols,
    /// Merge both symbol files for the emulator, where the tool is present.
    MergeSymbols,
    /// Stage the image directory and build the image.
    AssembleIso,
    Finished,
    Failed(BuildError),
}

/// The step the caller is to perform.
#[derive(Debug, Clone)]
pub enum BuildAction {
    /// Copy the debug symbols of `input` into `output`; strip `input`
    /// afterwards where `strip_input` is set.
    ExtractSymbols { input: LocalPath, output: LocalPath, strip_input: bool },
    /// Run the package manager's build in `crate_path`.
    BuildCarrier { crate_path: LocalPath, args: Vec<String>, env: Vec<(String, String)> },
    /// Rename `from` to `to` in one filesystem operation.
    Rename { from: LocalPath, to: LocalPath },
    /// Merge the symbol files into `output`; a missing tool is no failure.
    MergeSymbols { symbol_files: Vec<LocalPath>, output: LocalPath },
    /// Stage `iso_dir` around `executable` and build `iso_img` from it.
    AssembleIso { iso_dir: LocalPath, iso_img: LocalPath, executable: LocalPath },
    /// The build is complete.
    Finished(BuildMetadata),
    /// The build stopped.
    Failed(BuildError),
}

/// What came of the step last asked for.
#[derive(Debug, Clone)]
pub enum StepOutcome {
    /// The step succeeded.
    Completed,
    /// The bootloader build succeeded and reported these executables.
    Executables(Vec<LocalPath>),
    /// The optional symbol-merge tool is not installed.
    OptionalToolMissing,
    /// The step failed.
    Failed(BuildError),
}

/// A build in progress.
pub struct BuildPipeline {
    pub plan: BuildPlan,
    pub stage: Stage,
    /// The executable that the bootloader build produced.
    pub carrier_exe: Option<LocalPath>,
    /// Where the merged executable is, once renamed.
    pub merged_exe: Option<LocalPath>,
}

/// The state of a build as the decisions see it: the stage, the bootloader's
/// executable and the merged executable.
pub type PipelineView = (Stage, Option<PathView>, Option<PathView>);

/// The view of an optional path.
pub open spec fn opt_path(p: Option<LocalPath>) -> Option<PathView> {
    match p {
        Some(q) => Some(q@),
        None => None,
    }
}

/// The next state after `outcome`, for a build whose kernel file name is `name`.
pub open spec fn advance_spec(s: PipelineView, name: Seq<char>, outcome: StepOutcome) -> PipelineView {
    let (stage, carrier, merged) = s;
    match stage {
        Stage::Finished => s,
        Stage::Failed(_) => s,
        _ => match outcome {
            StepOutcome::Failed(e) => (Stage::Failed(e), carrier, merged),
            StepOutcome::Executables(v) => if stage == Stage::CarrierBuild {
                if v@.len() != 1 {
                    (
                        Stage::Failed(BuildError::CarrierProducedMultipleArtifacts(v@.len() as usize)),
                        carrier,
                        merged,
                    )
                } else {
                    match parent_spec(v@[0]@) {
                        Some(dir) => (Stage::Rename, Some(v@[0]@), Some(child_spec(dir, name))),
                        None => (Stage::Failed(BuildError::IncompleteExecutablePath), carrier, merged),
                    }
                }
            } else {
                (Stage::Failed(BuildError::UnexpectedOutcome), carrier, merged)
            },
            StepOutcome::OptionalToolMissing => if stage == Stage::MergeSymbols {
                (Stage::AssembleIso, carrier, merged)
            } else {
                (Stage::Failed(BuildError::UnexpectedOutcome), carrier, merged)
            },
            StepOutcome::Completed => match stage {
                Stage::KernelSymbols => (Stage::CarrierBuild, carrier, merged),
                Stage::Rename => (Stage::CarrierSymbols, carrier, merged),
                Stage::CarrierSymbols => (Stage::MergeSymbols, carrier, merged),
                Stage::MergeSymbols => (Stage::AssembleIso, carrier, merged),
                Stage::AssembleIso => (Stage::Finished, carrier, merged),
                _ => (Stage::Failed(BuildError::UnexpectedOutcome), carrier, merged),
            },
        },
    }
}

/// The state after a sequence of outcomes, one per step.
pub open spec fn run_spec(s: PipelineView, name: Seq<char>, outcomes: Seq<StepOutcome>) -> PipelineView
    decreases outcomes.len(),
{
    if outcomes.len() == 0 {
        s
    } else {
        advance_spec(run_spec(s, name, outcomes.drop_last()), name, outcomes.last())
    }
}

/// Whether the stage still has a tool to run.
pub open spec fn is_running(stage: Stage) -> bool {
    !(stage matches Stage::Finished) && !(stage matches Stage::Failed(_))
}

/// Whether the stage comes after the bootloader build.
pub open spec fn after_carrier_build(stage: Stage) -> bool {
    match stage {
        Stage::Rename | Stage::CarrierSymbols | Stage::MergeSymbols | Stage::AssembleIso
        | Stage::Finished => true,
        _ => false,
    }
}

impl BuildPipeline {
    /// The state as the decisions see it.
    pub open spec fn state(&self) -> PipelineView {
        (self.stage, opt_path(self.carrier_exe), opt_path(self.merged_exe))
    }

    /// Each stage after the bootloader build knows both executables.
    pub open spec fn wf(&self) -> bool {
        after_carrier_build(self.stage) ==> self.carrier_exe is Some && self.merged_exe is Some
    }

    /// Starts the build of the image for the kernel executable `kernel_exec`,
    /// which was built in the package directory `kernel_crate`. The first
    /// step copies the kernel's debug symbols out.
    pub fn new(
        kernel_exec: &LocalPath,
        kernel_crate: &LocalPath,
        bootloader_crate: &LocalPath,
        config: BuildConfig,
        options: &CliOptions,
    ) -> (r: Result<BuildPipeline, BuildError>)
        ensures
            kernel_exec@.1.len() == 0 ==> r == Err::<BuildPipeline, BuildError>(
                BuildError::IncompleteExecutablePath,
            ),
            kernel_exec@.1.len() > 0 ==> (r matches Ok(p) && {
                &&& p.wf()
                &&& p.state() == (Stage::KernelSymbols, None::<PathView>, None::<PathView>)
                &&& plan_spec(
                    p.plan,
                    kernel_exec@,
                    kernel_crate@,
                    bootloader_crate@,
                    texts_view(config.build_command@),
                    *options,
                )
            }),
    {
        let target_dir = match kernel_exec.parent() {
            Some(d) => d,
            None => return Err(BuildError::IncompleteExecutablePath),
        };
        let name = match kernel_exec.file_name() {
            Some(n) => n,
            None => return Err(BuildError::IncompleteExecutablePath),
        };
        let ghost dir = target_dir@;
        let mut sym_name = name.clone();
        sym_name.append(".sym");
        let kernel_sym = target_dir.child(sym_name.as_str());
        let bootloader_sym = target_dir.child("bootloader.sym");
        let combined_sym = target_dir.child("combined.bochsym");
        let iso_dir = target_dir.child("isofiles");
        let mut iso_name = file_stem(name.as_str());
        iso_name.append(".iso");
        let iso_img = target_dir.child(iso_name.as_str());
        let mut features: Vec<String> = Vec::new();
        features.push(EMBED_FEATURE.to_owned());
        assert(texts_view(features@) =~= seq![EMBED_FEATURE@]);
        let variant = classify_variant(&target_dir);
        let carrier_args = cargo_build_args(
            Some(&config),
            variant.is_release(),
            options.is_very_verbose,
            Some(&features),
        );
        let full_kernel_path = kernel_crate.join(kernel_exec).to_text();
        let mut carrier_env: Vec<(String, String)> = Vec::new();
        carrier_env.push((KERNEL_ENV_KEY.to_owned(), full_kernel_path));
        assert(env_view(carrier_env@) =~= seq![
            (KERNEL_ENV_KEY@, render_spec(join_spec(kernel_crate@, kernel_exec@))),
        ]);
        let plan = BuildPlan {
            kernel_exec: kernel_exec.duplicate(),
            kernel_file_name: name,
            target_dir,
            kernel_sym,
            bootloader_sym,
            combined_sym,
            iso_dir,
            iso_img,
            bootloader_crate: bootloader_crate.duplicate(),
            carrier_args,
            carrier_env,
            config,
            variant,
        };
        Ok(BuildPipeline { plan, stage: Stage::KernelSymbols, carrier_exe: None, merged_exe: None })
    }

    /// The step to perform now.
    pub fn action(&self) -> (r: BuildAction)
        requires
            self.wf(),
        ensures
            match self.stage {
                Stage::KernelSymbols => r matches BuildAction::ExtractSymbols { input, output, strip_input }
                    && input@ == self.plan.kernel_exec@ && output@ == self.plan.kernel_sym@
                    && !strip_input,
                Stage::CarrierBuild => r matches BuildAction::BuildCarrier { crate_path, args, env }
                    && crate_path@ == self.plan.bootloader_crate@
                    && texts_view(args@) == texts_view(self.plan.carrier_args@)
                    && env_view(env@) == env_view(self.plan.carrier_env@),
                Stage::Rename => r matches BuildAction::Rename { from, to }
                    && Some(from@) == opt_path(self.carrier_exe) && Some(to@) == opt_path(self.merged_exe),
                Stage::CarrierSymbols => r matches BuildAction::ExtractSymbols { input, output, strip_input }
                    && Some(input@) == opt_path(self.merged_exe) && output@ == self.plan.bootloader_sym@
                    && strip_input,
                Stage::MergeSymbols => r matches BuildAction::MergeSymbols { symbol_files, output }
                    && symbol_files@.len() == 2
                    && symbol_files@[0]@ == self.plan.bootloader_sym@
                    && symbol_files@[1]@ == self.plan.kernel_sym@
                    && output@ == self.plan.combined_sym@,
                Stage::AssembleIso => r matches BuildAction::AssembleIso { iso_dir, iso_img, executable }
                    && iso_dir@ == self.plan.iso_dir@ && iso_img@ == self.plan.iso_img@
                    && Some(executable@) == opt_path(self.merged_exe),
                Stage::Finished => r matches BuildAction::Finished(m)
                    && m.iso_img@ == self.plan.iso_img@ && m.variant == self.plan.variant
                    && m.config.build_command@ == self.plan.config.build_command@,
                Stage::Failed(e) => r == BuildAction::Failed(e),
            },
    {
        let plan = &self.plan;
        match self.stage {
            Stage::KernelSymbols => BuildAction::ExtractSymbols {
                input: plan.kernel_exec.duplicate(),
                output: plan.kernel_sym.duplicate(),
                strip_input: false,
            },
            Stage::CarrierBuild => BuildAction::BuildCarrier {
                crate_path: plan.bootloader_crate.duplicate(),
                args: crate::text::clone_texts(&plan.carrier_args),
                env: clone_env(&plan.carrier_env),
            },
            Stage::Rename => BuildAction::Rename {
                from: self.carrier_exe.as_ref().unwrap().duplicate(),
                to: self.merged_exe.as_ref().unwrap().duplicate(),
            },
            Stage::CarrierSymbols => BuildAction::ExtractSymbols {
                input: self.merged_exe.as_ref().unwrap().duplicate(),
                output: plan.bootloader_sym.duplicate(),
                strip_input: true,
            },
            Stage::MergeSymbols => {
                let mut symbol_files: Vec<LocalPath> = Vec::new();
                symbol_files.push(plan.bootloader_sym.duplicate());
                symbol_files.push(plan.kernel_sym.duplicate());
                BuildAction::MergeSymbols { symbol_files, output: plan.combined_sym.duplicate() }
            },
            Stage::AssembleIso => BuildAction::AssembleIso {
                iso_dir: plan.iso_dir.duplicate(),
                iso_img: plan.iso_img.duplicate(),
                executable: self.merged_exe.as_ref().unwrap().duplicate(),
            },
            Stage::Finished => BuildAction::Finished(
                BuildMetadata {
                    config: plan.config.duplicate(),
                    iso_img: plan.iso_img.duplicate(),
                    variant: plan.variant,
                },
            ),
            Stage::Failed(e) => BuildAction::Failed(e),
        }
    }

    /// Takes the outcome of the step last asked for and moves on: to the next
    /// step on success, to the failed state on the first failure. A finished
    /// or failed build stays as it is.
    pub fn advance(&mut self, outcome: StepOutcome)
        requires
            old(self).wf(),
        ensures
            final(self).wf(),
            final(self).state() == advance_spec(
                old(self).state(),
                old(self).plan.kernel_file_name@,
                outcome,
            ),
            final(self).plan == old(self).plan,
    {
        let ghost name = self.plan.kernel_file_name@;
        match self.stage {
            Stage::Finished => return,
            Stage::Failed(_) => return,
            _ => {},
        }
        match outcome {
            StepOutcome::Failed(e) => {
                self.stage = Stage::Failed(e);
            },
            StepOutcome::Executables(v) => {
                if self.stage != Stage::CarrierBuild {
                    self.stage = Stage::Failed(BuildError::UnexpectedOutcome);
                } else if v.len() != 1 {
                    self.stage = Stage::Failed(BuildError::CarrierProducedMultipleArtifacts(v.len()));
                } else {
                    match v[0].parent() {
                        Some(dir) => {
                            let merged = dir.child(self.plan.kernel_file_name.as_str());
                            let mut v = v;
                            let exe = v.pop().unwrap();
                            self.carrier_exe = Some(exe);
                            self.merged_exe = Some(merged);
                            self.stage = Stage::Rename;
                        },
                        None => {
                            self.stage = Stage::Failed(BuildError::IncompleteExecutablePath);
                        },
                    }
                }
            },
            StepOutcome::OptionalToolMissing => {
                if self.stage == Stage::MergeSymbols {
                    self.stage = Stage::AssembleIso;
                } else {
                    self.stage = Stage::Failed(BuildError::UnexpectedOutcome);
                }
            },
            StepOutcome::Completed => {
                self.stage = match self.stage {
                    Stage::KernelSymbols => Stage::CarrierBuild,
                    Stage::Rename => Stage::CarrierSymbols,
                    Stage::CarrierSymbols => Stage::MergeSymbols,
                    Stage::MergeSymbols => Stage::AssembleIso,
                    Stage::AssembleIso => Stage::Finished,
                    _ => Stage::Failed(BuildError::UnexpectedOutcome),
                };
            },
        }
    }
}

proof fn lemma_push_contains(s: Seq<Seq<char>>, x: Seq<char>, y: Seq<char>)
    ensures
        s.push(x).contains(y) == (s.contains(y) || x == y),
{
    if s.push(x).contains(y) {
        let i = choose|i: int| 0 <= i < s.push(x).len() && s.push(x)[i] == y;
        if i < s.len() {
            assert(s[i] == y);
        }
    }
    if s.contains(y) {
        let i = choose|i: int| 0 <= i < s.len() && s[i] == y;
        assert(s.push(x)[i] == y);
    }
    if x == y {
        assert(s.push(x)[s.len() as int] == y);
    }
}

/// The variant, and with it the bootloader's release switch, follows the
/// kernel's directory alone: a kernel in a `release` directory gives an
/// optimised variant and a bootloader build with `--release`; a kernel
/// anywhere else gives a debug variant, and a bootloader build without
/// `--release` unless the build command holds one of its own. A kernel in a
/// `deps` directory, or in one named with the documentation-test prefix, gives
/// a test harness whatever the profile.
pub proof fn lemma_variant_from_directory(
    p: BuildPlan,
    exec: PathView,
    kernel_crate: PathView,
    bootloader_crate: PathView,
    command: Seq<Seq<char>>,
    options: CliOptions,
)
    requires
        exec.1.len() > 0,
        plan_spec(p, exec, kernel_crate, bootloader_crate, command, options),
    ensures
        ends_with_spec(parent_spec(exec)->0, RELEASE_DIR@) ==> {
            &&& p.variant.profile == Profile::Release
            &&& texts_view(p.carrier_args@).contains("--release"@)
        },
        !ends_with_spec(parent_spec(exec)->0, RELEASE_DIR@) ==> {
            &&& p.variant.profile == Profile::Debug
            &&& !command.contains("--release"@) ==> !texts_view(p.carrier_args@).contains("--release"@)
        },
        ends_with_spec(parent_spec(exec)->0, DEPENDENCY_ARTIFACTS@) ==> p.variant.harness
            == Harness::TestHarness,
        match file_name_spec(parent_spec(exec)->0) {
            Some(n) => TEST_HARNESS_PREFIX@.len() <= n.len() && n.subrange(
                0,
                TEST_HARNESS_PREFIX@.len() as int,
            ) == TEST_HARNESS_PREFIX@ ==> p.variant.harness == Harness::TestHarness,
            None => true,
        },
{
    let dir = parent_spec(exec)->0;
    let release = ends_with_spec(dir, RELEASE_DIR@);
    let flag = "--features="@ + feature_list(seq![EMBED_FEATURE@]);
    let a = command.push(flag);
    let b = if release { a.push("--release"@) } else { a };
    let c = if options.is_very_verbose { b.push("-vv"@) } else { b };
    let d = c.push("--message-format"@).push("json"@);
    assert(texts_view(p.carrier_args@) == d);
    reveal_strlit("--release");
    reveal_strlit("--features=");
    reveal_strlit("-vv");
    reveal_strlit("--message-format");
    reveal_strlit("json");
    assert(flag.len() >= 11);
    assert(flag != "--release"@);
    assert("-vv"@.len() == 3 && "--release"@.len() == 9);
    assert("-vv"@ != "--release"@);
    assert("--message-format"@.len() == 16);
    assert("--message-format"@ != "--release"@);
    assert("json"@ != "--release"@);
    lemma_push_contains(command, flag, "--release"@);
    lemma_push_contains(a, "--release"@, "--release"@);
    lemma_push_contains(b, "-vv"@, "--release"@);
    lemma_push_contains(c, "--message-format"@, "--release"@);
    lemma_push_contains(c.push("--message-format"@), "json"@, "--release"@);
}

/// A stopped build stays stopped, whatever outcomes follow.
pub proof fn lemma_failed_stays(s: PipelineView, name: Seq<char>, later: Seq<StepOutcome>)
    requires
        s.0 matches Stage::Failed(_),
    ensures
        run_spec(s, name, later) == s,
    decreases later.len(),
{
    if later.len() > 0 {
        lemma_failed_stays(s, name, later.drop_last());
    }
}

/// A bootloader build that reports no executable, or more than one, stops the
/// build with the artifact-count error, and no outcome after it moves the
/// build on: no step follows, and no image is built.
pub proof fn lemma_artifact_count_stops(
    s: PipelineView,
    name: Seq<char>,
    exes: Vec<LocalPath>,
    later: Seq<StepOutcome>,
)
    requires
        s.0 == Stage::CarrierBuild,
        exes@.len() != 1,
    ensures
        run_spec(advance_spec(s, name, StepOutcome::Executables(exes)), name, later).0
            == Stage::Failed(BuildError::CarrierProducedMultipleArtifacts(exes@.len() as usize)),
        !is_running(run_spec(advance_spec(s, name, StepOutcome::Executables(exes)), name, later).0),
{
    lemma_failed_stays(advance_spec(s, name, StepOutcome::Executables(exes)), name, later);
}

/// Rerunning a build repeats it: two builds started from the same kernel
/// executable, package directories, build command and options have the same
/// plan, and where every step reports the same outcome in both, they ask for
/// the same steps and end in the same state. Each step overwrites what it
/// writes, so the image of the second run is that of the first.
pub proof fn lemma_rerun_repeats(
    p: BuildPipeline,
    q: BuildPipeline,
    exec: PathView,
    kernel_crate: PathView,
    bootloader_crate: PathView,
    command: Seq<Seq<char>>,
    options: CliOptions,
    outcomes: Seq<StepOutcome>,
)
    requires
        exec.1.len() > 0,
        p.state() == q.state(),
        plan_spec(p.plan, exec, kernel_crate, bootloader_crate, command, options),
        plan_spec(q.plan, exec, kernel_crate, bootloader_crate, command, options),
    ensures
        p.plan.iso_img@ == q.plan.iso_img@,
        p.plan.iso_dir@ == q.plan.iso_dir@,
        texts_view(p.plan.carrier_args@) == texts_view(q.plan.carrier_args@),
        env_view(p.plan.carrier_env@) == env_view(q.plan.carrier_env@),
        run_spec(p.state(), p.plan.kernel_file_name@, outcomes) == run_spec(
            q.state(),
            q.plan.kernel_file_name@,
            outcomes,
        ),
{
}

/// Clones every binding.
fn clone_env(v: &Vec<(String, String)>) -> (r: Vec<(String, String)>)
    ensures
        env_view(r@) == env_view(v@),
{
    let mut r: Vec<(String, String)> = Vec::new();
    for i in 0..v.len()
        invariant
            env_view(r@) == env_view(v@.subrange(0, i as int)),
    {
        let ghost before = env_view(r@);
        let k = v[i].0.clone();
        let val = v[i].1.clone();
        assert(k@ == v@[i as int].0@ && val@ == v@[i as int].1@);
        r.push((k, val));
        assert(env_view(r@) =~= before.push((v@[i as int].0@, v@[i as int].1@)));
        assert(env_view(v@.subrange(0, i + 1)) =~= env_view(v@.subrange(0, i as int)).push(
            (v@[i as int].0@, v@[i as int].1@),
        ));
    }
    assert(v@.subrange(0, v@.len() as int) =~= v@);
    r
}

} // verus!
