//! The layout of the bootable image's staging directory.

use vstd::prelude::*;
use crate::cargo::{BuildError, Tool};
use crate::path::{LocalPath, PathView, child_spec, render_spec};
use crate::pipeline::StepOutcome;
use crate::text::texts_view;

verus! {

/// The boot menu: one entry that boots the kernel at its fixed place in the
/// image, chosen at once.
pub const GRUB_CONFIG: &'static str = "
            set timeout=0
            set default=0

            menuentry \"kernel\" {
                multiboot2 /boot/kernel.elf
                boot
            }
            ";

/// Where the pieces of the image go inside the staging directory.
#[derive(Debug, Clone)]
pub struct IsoLayout {
    /// `boot/grub`, created with its parents.
    pub grub_dir: LocalPath,
    /// `boot/grub/grub.cfg`, which holds the boot menu.
    pub grub_cfg: LocalPath,
    /// `boot/kernel.elf`, a copy of the merged executable.
    pub kernel_elf: LocalPath,
}

/// `boot/grub` inside the staging directory.
pub open spec fn grub_dir_spec(iso_dir: PathView) -> PathView {
    child_spec(child_spec(iso_dir, "boot"@), "grub"@)
}

/// The layout of the staging directory `iso_dir`.
pub fn iso_layout(iso_dir: &LocalPath) -> (r: IsoLayout)
    ensures
        r.grub_dir@ == grub_dir_spec(iso_dir@),
        r.grub_cfg@ == child_spec(grub_dir_spec(iso_dir@), "grub.cfg"@),
        r.kernel_elf@ == child_spec(child_spec(iso_dir@, "boot"@), "kernel.elf"@),
{
    let boot = iso_dir.child("boot");
    let grub_dir = boot.child("grub");
    let grub_cfg = grub_dir.child("grub.cfg");
    let kernel_elf = boot.child("kernel.elf");
    IsoLayout { grub_dir, grub_cfg, kernel_elf }
}

/// The text of the boot menu.
pub fn grub_config() -> (r: String)
    ensures
        r@ == GRUB_CONFIG@,
{
    GRUB_CONFIG.to_owned()
}

/// Arguments of the image tool that builds `iso_img` from `iso_dir`.
pub fn grub_mkrescue_args(iso_img: &LocalPath, iso_dir: &LocalPath) -> (r: Vec<String>)
    ensures
        texts_view(r@) == seq!["-o"@, render_spec(iso_img@), render_spec(iso_dir@)],
{
    let mut r: Vec<String> = Vec::new();
    r.push("-o".to_owned());
    r.push(iso_img.to_text());
    r.push(iso_dir.to_text());
    assert(texts_view(r@) =~= seq!["-o"@, render_spec(iso_img@), render_spec(iso_dir@)]);
    r
}

/// What creating a directory reported.
#[derive(Debug, Clone, Copy, PartialEq, Eq, Structural)]
pub enum DirCreation {
    Created,
    AlreadyExists,
    Failed,
}

/// Creating a directory that is already there is no failure; any other
/// failure is.
pub fn dir_creation_result(c: DirCreation) -> (r: Result<(), BuildError>)
    ensures
        r == match c {
            DirCreation::Failed => Err::<(), BuildError>(BuildError::Filesystem),
            _ => Ok::<(), BuildError>(()),
        },
{
    match c {
        DirCreation::Failed => Err(BuildError::Filesystem),
        _ => Ok(()),
    }
}

/// What came of assembling the image: a directory or file that could not be
/// written, or an image tool that failed, stops the build.
pub fn assembly_outcome(staged: bool, tool_started: bool, succeeded: bool) -> (r: StepOutcome)
    ensures
        !staged ==> r == StepOutcome::Failed(BuildError::Filesystem),
        staged && !tool_started ==> r == StepOutcome::Failed(BuildError::ToolMissing(Tool::GrubMkrescue)),
        staged && tool_started && !succeeded ==> r == StepOutcome::Failed(
            BuildError::ToolExitNonzero(Tool::GrubMkrescue),
        ),
        staged && tool_started && succeeded ==> r == StepOutcome::Completed,
{
    if !staged {
        StepOutcome::Failed(BuildError::Filesystem)
    } else if !tool_started {
        StepOutcome::Failed(BuildError::ToolMissing(Tool::GrubMkrescue))
    } else if !succeeded {
        StepOutcome::Failed(BuildError::ToolExitNonzero(Tool::GrubMkrescue))
    } else {
        StepOutcome::Completed
    }
}

} // verus!
