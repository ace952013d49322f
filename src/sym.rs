//! Debug-symbol files: the object-file tool's invocations, and the optional
//! merge of symbol files for the emulator.

use vstd::prelude::*;
use crate::cargo::{BuildError, Tool};
use crate::path::{LocalPath, render_spec};
use crate::pipeline::StepOutcome;
use crate::text::texts_view;

verus! {

/// Arguments that copy the debug information of `input` into `output`.
pub open spec fn keep_debug_args(input: Seq<char>, output: Seq<char>) -> Seq<Seq<char>> {
    seq!["--only-keep-debug"@, input, output]
}

/// Arguments that strip the debug information of `path` in place.
pub open spec fn strip_debug_args(path: Seq<char>) -> Seq<Seq<char>> {
    seq!["--strip-debug"@, path, path]
}

/// The object-file tool's work for one symbol file, one invocation at a
/// time, stopping at the first failure.
#[derive(Debug, Clone)]
pub struct SymbolExtraction {
    /// The invocations, in the order they run.
    pub commands: Vec<Vec<String>>,
    /// How many of them have succeeded.
    pub done: usize,
    /// Why the work stopped, if it failed.
    pub failure: Option<BuildError>,
}

impl SymbolExtraction {
    /// The progress counter stays within the invocations.
    pub open spec fn wf(&self) -> bool {
        self.done <= self.commands@.len()
    }

    /// No invocation is left to run: one failed, or all succeeded.
    pub open spec fn finished(&self) -> bool {
        self.failure is Some || self.done >= self.commands@.len()
    }

    /// The invocation to run next, if any.
    pub fn next_command(&self) -> (r: Option<Vec<String>>)
        requires
            self.wf(),
        ensures
            self.finished() ==> r is None,
            !self.finished() ==> (r matches Some(c) && c@ == self.commands@[self.done as int]@),
    {
        if self.failure.is_some() || self.done >= self.commands.len() {
            None
        } else {
            Some(crate::text::clone_texts(&self.commands[self.done]))
        }
    }

    /// Takes the exit code of the invocation last handed out: success moves
    /// on to the next one, anything else stops the work with that code.
    pub fn report(&mut self, exit_code: Option<i32>)
        requires
            old(self).wf(),
            !old(self).finished(),
        ensures
            final(self).wf(),
            final(self).commands == old(self).commands,
            exit_code == Some(0i32) ==> final(self).done == old(self).done + 1
                && final(self).failure is None,
            exit_code != Some(0i32) ==> final(self).done == old(self).done
                && final(self).failure == Some(BuildError::ObjectToolFailed { exit_code }),
    {
        let n = self.commands.len();
        match exit_code {
            Some(0) => {
                assert(self.done < n);
                self.done = self.done + 1;
            },
            _ => {
                self.failure = Some(BuildError::ObjectToolFailed { exit_code });
            },
        }
    }

    /// What came of the work once it is finished.
    pub fn outcome(&self) -> (r: StepOutcome)
        ensures
            match self.failure {
                Some(e) => r == StepOutcome::Failed(e),
                None => r == StepOutcome::Completed,
            },
    {
        match self.failure {
            Some(e) => StepOutcome::Failed(e),
            None => StepOutcome::Completed,
        }
    }
}

/// The object-file tool's work that writes the symbol file `out_path` for
/// `in_path`: the copy of the debug information, then, where `strip_in` is
/// set, the strip of `in_path` in place. Where the tool could not be located
/// nothing runs and the work has failed with `ObjectToolMissing`.
pub fn create_sym_file(in_path: &LocalPath, out_path: &LocalPath, strip_in: bool, tool_found: bool) -> (r:
    SymbolExtraction)
    ensures
        r.wf(),
        r.done == 0,
        !tool_found ==> r.failure == Some(BuildError::ObjectToolMissing) && r.finished(),
        tool_found ==> r.failure is None,
        r.commands@.len() == if strip_in { 2int } else { 1int },
        texts_view(r.commands@[0]@) == keep_debug_args(render_spec(in_path@), render_spec(out_path@)),
        strip_in ==> texts_view(r.commands@[1]@) == strip_debug_args(render_spec(in_path@)),
{
    let input = in_path.to_text();
    let output = out_path.to_text();
    let mut keep: Vec<String> = Vec::new();
    keep.push("--only-keep-debug".to_owned());
    keep.push(input.clone());
    keep.push(output);
    assert(texts_view(keep@) =~= keep_debug_args(input@, render_spec(out_path@)));
    let mut commands: Vec<Vec<String>> = Vec::new();
    commands.push(keep);
    if strip_in {
        let mut strip: Vec<String> = Vec::new();
        strip.push("--strip-debug".to_owned());
        strip.push(input.clone());
        strip.push(input);
        assert(texts_view(strip@) =~= strip_debug_args(render_spec(in_path@)));
        commands.push(strip);
    }
    let failure = if tool_found {
        None
    } else {
        Some(BuildError::ObjectToolMissing)
    };
    SymbolExtraction { commands, done: 0, failure }
}

/// Arguments that name each symbol file and then the output.
pub open spec fn merge_args_spec(files: Seq<Seq<char>>, output: Seq<char>) -> Seq<Seq<char>>
    decreases files.len(),
{
    if files.len() == 0 {
        seq!["-o"@, output]
    } else {
        seq!["--symfile"@, files[0]] + merge_args_spec(files.drop_first(), output)
    }
}

/// The optional merge of symbol files for the emulator.
#[derive(Debug, Clone)]
pub struct SymbolMerge {
    /// Arguments of the merge tool.
    pub args: Vec<String>,
}

impl SymbolMerge {
    /// What came of the merge: a tool that could not be started is no
    /// failure, the build goes on without the merged file; a run that exits
    /// with anything but success stops the build.
    pub fn finish(&self, started: bool, exit_code: Option<i32>) -> (r: StepOutcome)
        ensures
            !started ==> r == StepOutcome::OptionalToolMissing,
            started && exit_code != Some(0i32) ==> r == StepOutcome::Failed(
                BuildError::ToolExitNonzero(Tool::Bochsym),
            ),
            started && exit_code == Some(0i32) ==> r == StepOutcome::Completed,
    {
        if !started {
            StepOutcome::OptionalToolMissing
        } else {
            match exit_code {
                Some(0) => StepOutcome::Completed,
                _ => StepOutcome::Failed(BuildError::ToolExitNonzero(Tool::Bochsym)),
            }
        }
    }
}

/// The merge of `symfiles` into `out_path`: its arguments name each symbol
/// file, then the output. Where the tool is missing, `finish` lets the build
/// go on.
pub fn create_bochs_symfile(symfiles: &Vec<LocalPath>, out_path: &LocalPath) -> (r: SymbolMerge)
    ensures
        texts_view(r.args@) == merge_args_spec(
            symfiles@.map_values(|p: LocalPath| render_spec(p@)),
            render_spec(out_path@),
        ),
{
    let ghost files = symfiles@.map_values(|p: LocalPath| render_spec(p@));
    let ghost out = render_spec(out_path@);
    let mut r: Vec<String> = Vec::new();
    assert(files.subrange(0, files.len() as int) =~= files);
    assert(texts_view(r@) + merge_args_spec(files, out) =~= merge_args_spec(files, out));
    for i in 0..symfiles.len()
        invariant
            files == symfiles@.map_values(|p: LocalPath| render_spec(p@)),
            out == render_spec(out_path@),
            texts_view(r@) + merge_args_spec(files.subrange(i as int, files.len() as int), out)
                == merge_args_spec(files, out),
    {
        let ghost rest = files.subrange(i as int, files.len() as int);
        assert(rest.drop_first() =~= files.subrange(i + 1, files.len() as int));
        assert(rest[0] == render_spec(symfiles@[i as int]@));
        let ghost before = texts_view(r@);
        r.push("--symfile".to_owned());
        r.push(symfiles[i].to_text());
        assert(texts_view(r@) =~= before + seq!["--symfile"@, rest[0]]);
        assert(texts_view(r@) + merge_args_spec(rest.drop_first(), out)
            =~= before + merge_args_spec(rest, out));
    }
    let ghost before = texts_view(r@);
    assert(files.subrange(files.len() as int, files.len() as int) =~= Seq::<Seq<char>>::empty());
    r.push("-o".to_owned());
    r.push(out_path.to_text());
    assert(texts_view(r@) =~= before + seq!["-o"@, out]);
    SymbolMerge { args: r }
}

} // verus!
