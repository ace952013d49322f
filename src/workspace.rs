//! The two packages taking part in a build, and the options that apply to it.

use vstd::prelude::*;
use crate::metadata::{CrateMetadata, ResolveError, crate_names_spec, crate_of_dependency_spec};
use crate::path::{LocalPath, PathView, child_spec};

verus! {

/// The name under which the kernel declares its bootloader dependency.
pub const BOOTLOADER_DEPENDENCY: &'static str = "bootloader";

/// Options that hold for one run of the tool.
#[derive(Debug, Clone, Copy)]
pub struct CliOptions {
    pub is_release: bool,
    pub is_verbose: bool,
    pub is_very_verbose: bool,
}

impl CliOptions {
    /// Options from the release flag and the number of times the verbose flag
    /// was given: once makes the run verbose, twice or more very verbose.
    pub fn from_flags(is_release: bool, verbose_count: u8) -> (r: CliOptions)
        ensures
            r.is_release == is_release,
            r.is_verbose == (verbose_count >= 1),
            r.is_very_verbose == (verbose_count > 1),
    {
        CliOptions { is_release, is_verbose: verbose_count >= 1, is_very_verbose: verbose_count > 1 }
    }
}

/// A package resolved from its metadata.
#[derive(Clone, Debug)]
pub struct Manifest {
    pub crate_name: String,
    pub crate_path: LocalPath,
    pub cargo_toml: LocalPath,
    pub target_dir: LocalPath,
    pub meta: CrateMetadata,
}

/// The kernel package and the bootloader package it depends on.
#[derive(Clone, Debug)]
pub struct Manifests {
    pub kernel: Manifest,
    pub bootloader: Manifest,
}

/// The manifest file inside a package directory.
pub fn manifest_path_in(dir: &LocalPath) -> (r: LocalPath)
    ensures
        r@ == child_spec(dir@, "Cargo.toml"@),
{
    dir.child("Cargo.toml")
}

/// Why a package's metadata does not describe a package this tool can build,
/// if it does not.
pub open spec fn manifest_error_spec(meta: CrateMetadata) -> Option<ResolveError> {
    let names = crate_names_spec(meta.metadata.workspace_members@);
    if names.len() != 1 {
        Some(ResolveError::MultipleBinaries(names.len() as usize))
    } else if meta.metadata.has_workspace_metadata {
        Some(ResolveError::WorkspaceUnsupported)
    } else {
        None
    }
}

impl Manifest {
    /// Resolves the package in `crate_path` from the metadata queried for its
    /// manifest. The package must build exactly one binary and must not carry
    /// workspace metadata.
    pub fn from_metadata(crate_path: LocalPath, meta: CrateMetadata) -> (r: Result<Manifest, ResolveError>)
        ensures
            match manifest_error_spec(meta) {
                Some(e) => r == Err::<Manifest, ResolveError>(e),
                None => r matches Ok(m) && {
                    &&& m.crate_name@ == crate_names_spec(meta.metadata.workspace_members@)[0]
                    &&& m.crate_path@ == crate_path@
                    &&& m.cargo_toml@ == meta.cargo_toml@
                    &&& m.target_dir@ == meta.metadata.target_directory@
                    &&& m.meta == meta
                },
            },
    {
        let names = meta.get_crate_names();
        if names.len() != 1 {
            return Err(ResolveError::MultipleBinaries(names.len()));
        }
        if meta.metadata.has_workspace_metadata {
            return Err(ResolveError::WorkspaceUnsupported);
        }
        let crate_name = names[0].clone();
        let cargo_toml = meta.cargo_toml.duplicate();
        let target_dir = meta.get_target_dir();
        Ok(Manifest { crate_name, crate_path, cargo_toml, target_dir, meta })
    }

    /// Directory of the bootloader package that this kernel package depends on.
    pub fn bootloader_crate_path(&self) -> (r: Result<LocalPath, ResolveError>)
        ensures
            match r {
                Ok(dir) => crate_of_dependency_spec(self.meta, BOOTLOADER_DEPENDENCY@)
                    == Ok::<PathView, ResolveError>(dir@),
                Err(e) => crate_of_dependency_spec(self.meta, BOOTLOADER_DEPENDENCY@)
                    == Err::<PathView, ResolveError>(e),
            },
    {
        self.meta.get_crate_of_dependency(BOOTLOADER_DEPENDENCY)
    }
}

impl Manifests {
    /// The pair of resolved packages.
    pub fn new(kernel: Manifest, bootloader: Manifest) -> (r: Manifests)
        ensures
            r.kernel == kernel,
            r.bootloader == bootloader,
    {
        Manifests { kernel, bootloader }
    }
}

} // verus!
