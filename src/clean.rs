//! Removing the build output of both packages.

use vstd::prelude::*;
use crate::path::LocalPath;
use crate::text::texts_view;
use crate::workspace::{CliOptions, Manifests};

verus! {

/// One run of the package manager's clean action.
#[derive(Debug, Clone)]
pub struct CleanInvocation {
    /// The package directory it runs in.
    pub crate_path: LocalPath,
    pub args: Vec<String>,
}

/// `--package <name>` for each name, in order.
pub open spec fn package_args(names: Seq<Seq<char>>) -> Seq<Seq<char>>
    decreases names.len(),
{
    if names.len() == 0 {
        Seq::empty()
    } else {
        package_args(names.drop_last()) + seq!["--package"@, names.last()]
    }
}

/// Arguments of the clean action: limited to the named packages where names
/// are given, then the verbosity and release switches.
pub open spec fn clean_args_spec(names: Option<Seq<Seq<char>>>, is_release: bool, is_verbose: bool) -> Seq<
    Seq<char>,
> {
    let base = seq!["clean"@];
    let with_names = match names {
        Some(n) => base + package_args(n),
        None => base,
    };
    let with_verbose = if is_verbose {
        with_names.push("-vv"@)
    } else {
        with_names
    };
    if is_release {
        with_verbose.push("--release"@)
    } else {
        with_verbose
    }
}

/// Arguments of one clean action.
pub fn cargo_clean_args(dep_names: Option<&Vec<String>>, is_release: bool, is_verbose: bool) -> (r: Vec<String>)
    ensures
        texts_view(r@) == clean_args_spec(
            match dep_names {
                Some(n) => Some(texts_view(n@)),
                None => None,
            },
            is_release,
            is_verbose,
        ),
{
    let mut args: Vec<String> = Vec::new();
    args.push("clean".to_owned());
    assert(texts_view(args@) =~= seq!["clean"@]);
    match dep_names {
        Some(names) => {
            for i in 0..names.len()
                invariant
                    texts_view(args@) == seq!["clean"@] + package_args(
                        texts_view(names@).subrange(0, i as int),
                    ),
            {
                let ghost before = texts_view(args@);
                let ghost next = texts_view(names@).subrange(0, i + 1);
                assert(next.drop_last() =~= texts_view(names@).subrange(0, i as int));
                args.push("--package".to_owned());
                args.push(names[i].clone());
                assert(next.last() == names@[i as int]@);
                assert(texts_view(args@) =~= before + seq!["--package"@, next.last()]);
                assert(package_args(next) == package_args(next.drop_last()) + seq!["--package"@, next.last()]);
                assert(texts_view(args@) =~= seq!["clean"@] + package_args(next));
            }
            assert(texts_view(names@).subrange(0, names@.len() as int) =~= texts_view(names@));
        },
        None => {},
    }
    if is_verbose {
        let ghost before = texts_view(args@);
        args.push("-vv".to_owned());
        assert(texts_view(args@) =~= before.push("-vv"@));
    }
    if is_release {
        let ghost before = texts_view(args@);
        args.push("--release".to_owned());
        assert(texts_view(args@) =~= before.push("--release"@));
    }
    args
}

/// The clean actions for the kernel and then the bootloader package: each
/// limited to the package itself unless everything is to go.
pub fn glue_gun_clean(manifests: &Manifests, cli_options: CliOptions, clean_all: bool) -> (r: Vec<
    CleanInvocation,
>)
    ensures
        r@.len() == 2,
        r@[0].crate_path@ == manifests.kernel.crate_path@,
        r@[1].crate_path@ == manifests.bootloader.crate_path@,
        texts_view(r@[0].args@) == clean_args_spec(
            if clean_all {
                None
            } else {
                Some(seq![manifests.kernel.crate_name@])
            },
            cli_options.is_release,
            cli_options.is_very_verbose,
        ),
        texts_view(r@[1].args@) == clean_args_spec(
            if clean_all {
                None
            } else {
                Some(seq![manifests.bootloader.crate_name@])
            },
            cli_options.is_release,
            cli_options.is_very_verbose,
        ),
{
    let mut r: Vec<CleanInvocation> = Vec::new();
    r.push(clean_one(&manifests.kernel.crate_path, &manifests.kernel.crate_name, &cli_options, clean_all));
    r.push(
        clean_one(&manifests.bootloader.crate_path, &manifests.bootloader.crate_name, &cli_options, clean_all),
    );
    r
}

fn clean_one(crate_path: &LocalPath, name: &String, cli_options: &CliOptions, clean_all: bool) -> (r:
    CleanInvocation)
    ensures
        r.crate_path@ == crate_path@,
        texts_view(r.args@) == clean_args_spec(
            if clean_all {
                None
            } else {
                Some(seq![name@])
            },
            cli_options.is_release,
            cli_options.is_very_verbose,
        ),
{
    let args = if clean_all {
        cargo_clean_args(None, cli_options.is_release, cli_options.is_very_verbose)
    } else {
        let mut names: Vec<String> = Vec::new();
        names.push(name.clone());
        assert(texts_view(names@) =~= seq![name@]);
        cargo_clean_args(Some(&names), cli_options.is_release, cli_options.is_very_verbose)
    };
    CleanInvocation { crate_path: crate_path.duplicate(), args }
}

} // verus!
