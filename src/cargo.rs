//! Invoking the package manager's build action and reading what it reports.

use vstd::prelude::*;
use crate::path::{LocalPath, PathView, parse_spec};
use crate::text::{clone_texts, texts_view, pieces, pieces_before, lemma_pieces_step};
use crate::metadata::path_views;

verus! {

/// The external tools a build runs.
#[derive(Debug, Clone, Copy, PartialEq, Eq, Structural)]
pub enum Tool {
    Cargo,
    Objcopy,
    Bochsym,
    GrubMkrescue,
}

/// Why a build stopped.
#[derive(Debug, Clone, Copy, PartialEq, Eq, Structural)]
pub enum BuildError {
    /// A tool exited with a failure status.
    ToolExitNonzero(Tool),
    /// A tool could not be started or located.
    ToolMissing(Tool),
    /// The object-file tool could not be located.
    ObjectToolMissing,
    /// The object-file tool exited with a failure status; the code is absent
    /// where the tool was ended by a signal or could not be started.
    ObjectToolFailed { exit_code: Option<i32> },
    /// A line of the build's structured output is not a record.
    MalformedBuildOutput,
    /// The kernel build produced a number of executables other than one.
    KernelProducedMultipleArtifacts(usize),
    /// The bootloader build produced a number of executables other than one.
    CarrierProducedMultipleArtifacts(usize),
    /// An executable path has no directory or no file name.
    IncompleteExecutablePath,
    /// A filesystem operation failed.
    Filesystem,
    /// An outcome was reported that does not belong to the step that ran.
    UnexpectedOutcome,
}

/// The build command of a package: the tokens that replace the plain build
/// action.
#[derive(Debug, Clone)]
pub struct BuildConfig {
    pub build_command: Vec<String>,
}

impl BuildConfig {
    /// The configuration from a package's override, the plain build action
    /// where there is none.
    pub fn from_override(command: Option<Vec<String>>) -> (r: BuildConfig)
        ensures
            texts_view(r.build_command@) == match command {
                Some(c) => texts_view(c@),
                None => seq!["build"@],
            },
    {
        match command {
            Some(c) => BuildConfig { build_command: c },
            None => {
                let mut v: Vec<String> = Vec::new();
                v.push("build".to_owned());
                assert(texts_view(v@) =~= seq!["build"@]);
                BuildConfig { build_command: v }
            },
        }
    }

    /// A copy of the configuration.
    pub fn duplicate(&self) -> (r: BuildConfig)
        ensures
            r.build_command@ == self.build_command@,
    {
        BuildConfig { build_command: clone_texts(&self.build_command) }
    }
}

/// The features separated by commas, as the build action's feature flag
/// expects them.
pub open spec fn feature_list(fs: Seq<Seq<char>>) -> Seq<char>
    decreases fs.len(),
{
    if fs.len() == 0 {
        Seq::empty()
    } else if fs.len() == 1 {
        fs[0]
    } else {
        feature_list(fs.drop_last()) + seq![','] + fs.last()
    }
}

/// The arguments of a build invocation: the override command or the plain
/// build action, then the feature flag, the release and verbosity switches,
/// and the request for structured output.
pub open spec fn build_args_spec(
    command: Option<Seq<Seq<char>>>,
    is_release: bool,
    is_verbose: bool,
    features: Option<Seq<Seq<char>>>,
) -> Seq<Seq<char>> {
    let base = match command {
        Some(c) => c,
        None => seq!["build"@],
    };
    let with_features = match features {
        Some(f) => base.push("--features="@ + feature_list(f)),
        None => base,
    };
    let with_release = if is_release {
        with_features.push("--release"@)
    } else {
        with_features
    };
    let with_verbose = if is_verbose {
        with_release.push("-vv"@)
    } else {
        with_release
    };
    with_verbose.push("--message-format"@).push("json"@)
}

/// Arguments for one build invocation.
pub fn cargo_build_args(
    config: Option<&BuildConfig>,
    is_release: bool,
    is_verbose: bool,
    features: Option<&Vec<String>>,
) -> (r: Vec<String>)
    ensures
        texts_view(r@) == build_args_spec(
            match config {
                Some(c) => Some(texts_view(c.build_command@)),
                None => None,
            },
            is_release,
            is_verbose,
            match features {
                Some(f) => Some(texts_view(f@)),
                None => None,
            },
        ),
{
    let mut args: Vec<String> = match config {
        Some(c) => clone_texts(&c.build_command),
        None => {
            let mut v: Vec<String> = Vec::new();
            v.push("build".to_owned());
            v
        },
    };
    let ghost base = texts_view(args@);
    assert(config is None ==> base =~= seq!["build"@]);
    match features {
        Some(f) => {
            let mut flag = "--features=".to_owned();
            for i in 0..f.len()
                invariant
                    flag@ == "--features="@ + feature_list(texts_view(f@).subrange(0, i as int)),
            {
                let ghost prev = texts_view(f@).subrange(0, i as int);
                let ghost next = texts_view(f@).subrange(0, i + 1);
                assert(next.drop_last() =~= prev);
                if i > 0 {
                    flag.append(",");
                    proof { reveal_strlit(","); }
                }
                flag.append(f[i].as_str());
                proof {
                    if i == 0 {
                        assert(prev =~= Seq::<Seq<char>>::empty());
                        assert(flag@ =~= "--features="@ + next[0]);
                    } else {
                        assert(flag@ =~= "--features="@ + feature_list(next));
                    }
                }
            }
            assert(texts_view(f@).subrange(0, f@.len() as int) =~= texts_view(f@));
            let ghost before = texts_view(args@);
            args.push(flag);
            assert(texts_view(args@) =~= before.push(flag@));
        },
        None => {},
    }
    if is_release {
        let ghost before = texts_view(args@);
        args.push("--release".to_owned());
        assert(texts_view(args@) =~= before.push("--release"@));
    }
    if is_verbose {
        let ghost before = texts_view(args@);
        args.push("-vv".to_owned());
        assert(texts_view(args@) =~= before.push("-vv"@));
    }
    let ghost before = texts_view(args@);
    args.push("--message-format".to_owned());
    args.push("json".to_owned());
    assert(texts_view(args@) =~= before.push("--message-format"@).push("json"@));
    args
}

/// The longest run of consecutive decimal digits a line may hold to be read.
/// The JSON reader counts the digits of a fraction in a signed 16-bit
/// exponent, which a longer run could push past its range.
pub const MAX_DIGIT_RUN: usize = 32000;

/// Whether `c` is a decimal digit.
pub open spec fn is_digit(c: char) -> bool {
    '0' <= c && c <= '9'
}

/// Whether every stretch of more than `MAX_DIGIT_RUN` characters of `s`
/// holds a character that is not a digit.
pub open spec fn digit_runs_bounded(s: Seq<char>) -> bool {
    forall|i: int| 0 <= i && i + MAX_DIGIT_RUN + 1 <= s.len() ==> #[trigger] broken_at(s, i)
}

/// Whether the stretch of `MAX_DIGIT_RUN + 1` characters from `i` holds a
/// character that is not a digit.
pub open spec fn broken_at(s: Seq<char>, i: int) -> bool {
    exists|k: int| i <= k < i + MAX_DIGIT_RUN + 1 && !is_digit(#[trigger] s[k])
}

/// Whether no run of consecutive digits in `s` is longer than `MAX_DIGIT_RUN`.
pub fn has_bounded_digit_runs(s: &str) -> (r: bool)
    ensures
        r == digit_runs_bounded(s@),
{
    let n = s.unicode_len();
    let ghost t = s@;
    let mut run: usize = 0;
    let mut idx: usize = 0;
    for c in it: s.chars()
        invariant
            n == t.len(),
            t == s@,
            it.seq() == t,
            idx == it.index(),
            idx <= n,
            run <= idx,
            run <= MAX_DIGIT_RUN,
            forall|k: int| idx - run <= k < idx ==> is_digit(#[trigger] t[k]),
            idx - run > 0 ==> !is_digit(t[idx - run - 1]),
            forall|i: int| 0 <= i && i + MAX_DIGIT_RUN + 1 <= idx ==> #[trigger] broken_at(t, i),
    {
        assert(c == t[idx as int]);
        if '0' <= c && c <= '9' {
            if run == MAX_DIGIT_RUN {
                let ghost i = idx - MAX_DIGIT_RUN;
                assert(!broken_at(t, i));
                return false;
            }
            run = run + 1;
            proof {
                if idx + 1 >= MAX_DIGIT_RUN + 1 {
                    let i = idx + 1 - (MAX_DIGIT_RUN + 1);
                    assert(idx - run + 1 > 0);
                    assert(!is_digit(t[idx - run]));
                    assert(i <= idx - run < i + MAX_DIGIT_RUN + 1);
                    assert(broken_at(t, i));
                }
            }
        } else {
            run = 0;
        }
        idx = idx + 1;
    }
    true
}

/// What reading one line of build output as a JSON document and taking the
/// string under its "executable" member yields: `None` where the line is not
/// a JSON document, `Some(None)` where the member is absent or not a string.
pub uninterp spec fn executable_in_record(line: Seq<char>) -> Option<Option<Seq<char>>>;

/// Relies on json::parse to read one line as a JSON document, and on
/// JsonValue::take_string to take the string under its "executable" member.
/// The line holds no digit run that would overflow the reader's exponent.
#[verifier::external_body]
fn record_executable(line: &str) -> (r: Option<Option<String>>)
    requires
        digit_runs_bounded(line@),
    ensures
        match r {
            None => executable_in_record(line@) is None,
            Some(None) => executable_in_record(line@) == Some(None::<Seq<char>>),
            Some(Some(e)) => executable_in_record(line@) == Some(Some(e@)),
        },
{
    match json::parse(line) {
        Ok(mut record) => Some(record["executable"].take_string()),
        Err(_) => None,
    }
}

/// The text view of a parsed record.
pub open spec fn record_view(record: Option<Option<String>>) -> Option<Option<Seq<char>>> {
    match record {
        None => None,
        Some(None) => Some(None),
        Some(Some(e)) => Some(Some(e@)),
    }
}

/// The executable that one parsed record reports, if any: an empty string
/// reports none.
pub open spec fn record_outcome(record: Option<Option<Seq<char>>>) -> Option<Option<Seq<char>>> {
    match record {
        None => None,
        Some(Some(e)) => if e.len() > 0 {
            Some(Some(e))
        } else {
            Some(None)
        },
        Some(None) => Some(None),
    }
}

/// What one parsed record of build output contributes: an error where the
/// line was not a record, the executable's path where it names a non-empty
/// one, nothing otherwise.
pub fn executable_of_record(record: Option<Option<String>>) -> (r: Result<Option<LocalPath>, BuildError>)
    ensures
        match record_outcome(record_view(record)) {
            None => r == Err::<Option<LocalPath>, BuildError>(BuildError::MalformedBuildOutput),
            Some(None) => r matches Ok(None),
            Some(Some(e)) => r matches Ok(Some(p)) && p@ == parse_spec(e),
        },
{
    match record {
        None => Err(BuildError::MalformedBuildOutput),
        Some(None) => Ok(None),
        Some(Some(e)) => {
            if e.as_str().unicode_len() == 0 {
                Ok(None)
            } else {
                Ok(Some(LocalPath::parse(e.as_str())))
            }
        },
    }
}

/// The lines of a text: the pieces between newlines, where a final newline
/// ends the last line rather than starting an empty one.
pub open spec fn lines_spec(s: Seq<char>) -> Seq<Seq<char>> {
    if s.len() == 0 {
        Seq::empty()
    } else if s.last() == '\n' {
        pieces(s.drop_last(), '\n')
    } else {
        pieces(s, '\n')
    }
}

/// The executables that build output lines report, in order, or `None` where
/// a line is not a record, or holds a digit run too long to be read.
pub open spec fn executables_spec(lines: Seq<Seq<char>>) -> Option<Seq<Seq<char>>>
    decreases lines.len(),
{
    if lines.len() == 0 {
        Some(Seq::empty())
    } else {
        match executables_spec(lines.drop_last()) {
            None => None,
            Some(acc) => if !digit_runs_bounded(lines.last()) {
                None
            } else {
                match record_outcome(executable_in_record(lines.last())) {
                    None => None,
                    Some(Some(e)) => Some(acc.push(e)),
                    Some(None) => Some(acc),
                }
            },
        }
    }
}

/// The paths of a sequence of path texts.
pub open spec fn parsed_paths(v: Seq<Seq<char>>) -> Seq<PathView> {
    v.map_values(|e: Seq<char>| parse_spec(e))
}

/// The executables that the structured output of a build reports, one line
/// per record, in the order they were reported.
pub fn executables_from_output(stdout: &str) -> (r: Result<Vec<LocalPath>, BuildError>)
    ensures
        match executables_spec(lines_spec(stdout@)) {
            None => r == Err::<Vec<LocalPath>, BuildError>(BuildError::MalformedBuildOutput),
            Some(v) => r matches Ok(found) && path_views(found@) == parsed_paths(v),
        },
{
    let n = stdout.unicode_len();
    let ghost s = stdout@;
    let mut found: Vec<LocalPath> = Vec::new();
    let mut failed = false;
    let mut start: usize = 0;
    let mut idx: usize = 0;
    for c in it: stdout.chars()
        invariant
            n == s.len(),
            s == stdout@,
            it.seq() == s,
            idx == it.index(),
            start <= idx <= n,
            start > 0 ==> s[start - 1] == '\n',
            forall|k: int| start <= k < idx ==> s[k] != '\n',
            failed ==> executables_spec(pieces_before(s, '\n', start as int)) is None,
            !failed ==> (executables_spec(pieces_before(s, '\n', start as int)) matches Some(v)
                && path_views(found@) == parsed_paths(v)),
    {
        assert(c == s[idx as int]);
        if c == '\n' {
            proof { lemma_pieces_step(s, '\n', start as int, idx as int); }
            let ghost lines = pieces_before(s, '\n', start as int).push(s.subrange(start as int, idx as int));
            assert(lines.drop_last() =~= pieces_before(s, '\n', start as int));
            assert(s.subrange(0, idx + 1 - 1) =~= s.subrange(0, idx as int));
            assert(pieces_before(s, '\n', idx + 1) == lines);
            if !failed {
                let line = stdout.substring_char(start, idx);
                failed = !take_record(line, &mut found, Ghost(pieces_before(s, '\n', start as int)));
            }
            start = idx + 1;
        }
        idx = idx + 1;
    }
    proof { lemma_pieces_step(s, '\n', start as int, n as int); }
    assert(s.subrange(0, n as int) =~= s);
    if start < n {
        let ghost lines = pieces_before(s, '\n', start as int).push(s.subrange(start as int, n as int));
        assert(lines.drop_last() =~= pieces_before(s, '\n', start as int));
        assert(s.last() != '\n');
        assert(lines_spec(s) == lines);
        if !failed {
            let line = stdout.substring_char(start, n);
            failed = !take_record(line, &mut found, Ghost(pieces_before(s, '\n', start as int)));
        }
    } else {
        proof {
            if n > 0 {
                assert(s.drop_last() =~= s.subrange(0, n - 1));
            }
        }
    }
    if failed {
        Err(BuildError::MalformedBuildOutput)
    } else {
        Ok(found)
    }
}

/// Reads one line of build output and adds the executable it reports;
/// `false` where the line is not a record or cannot safely be read.
fn take_record(line: &str, found: &mut Vec<LocalPath>, done: Ghost<Seq<Seq<char>>>) -> (ok: bool)
    requires
        executables_spec(done@) matches Some(v) && path_views(old(found)@) == parsed_paths(v),
    ensures
        ok ==> (executables_spec(done@.push(line@)) matches Some(v)
            && path_views(final(found)@) == parsed_paths(v)),
        !ok ==> executables_spec(done@.push(line@)) is None,
{
    let ghost lines0 = done@.push(line@);
    assert(lines0.drop_last() =~= done@);
    if !has_bounded_digit_runs(line) {
        return false;
    }
    let record = record_executable(line);
    let ghost rv = record_view(record);
    assert(rv == executable_in_record(line@));
    let ghost lines = done@.push(line@);
    assert(lines.drop_last() =~= done@);
    let ghost v = executables_spec(done@)->0;
    match executable_of_record(record) {
        Err(_) => false,
        Ok(Some(p)) => {
            let ghost prev = path_views(found@);
            let ghost e = record_outcome(rv)->0->0;
            assert(p@ == parse_spec(e));
            let ghost pv = p@;
            found.push(p);
            assert(path_views(found@) =~= prev.push(pv));
            assert(parsed_paths(v.push(e)) =~= parsed_paths(v).push(parse_spec(e)));
            assert(executables_spec(lines) == Some(v.push(e)));
            assert(path_views(found@) =~= parsed_paths(v.push(e)));
            true
        },
        Ok(None) => true,
    }
}

/// The one executable of a build that must produce exactly one.
pub fn kernel_executable(exes: Vec<LocalPath>) -> (r: Result<LocalPath, BuildError>)
    ensures
        exes@.len() == 1 ==> r == Ok::<LocalPath, BuildError>(exes@[0]),
        exes@.len() != 1 ==> r == Err::<LocalPath, BuildError>(
            BuildError::KernelProducedMultipleArtifacts(exes@.len() as usize),
        ),
{
    let mut exes = exes;
    if exes.len() != 1 {
        return Err(BuildError::KernelProducedMultipleArtifacts(exes.len()));
    }
    let exe = exes.pop().unwrap();
    Ok(exe)
}

} // verus!
