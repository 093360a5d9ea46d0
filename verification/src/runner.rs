//! Decisions of the solution verification pipeline: whether a build
//! artifact is still fresh, what command and arguments to compile and run
//! with, how long a case may run, how each case's I/O is wired, how its
//! output is judged, and the run's overall sequencing. All outside work —
//! spawning, waiting, reading and writing files — is the caller's: it
//! performs each step and reports the outcome back to the [`RunSession`]
//! state machine.

use crate::compare::trim_spec;
use crate::division::{division_name, Division};
use crate::preferences::{lang_ext, CPPCompiler, Language};
use crate::problem::{IoMode, ReleasedProblemData, TestCase};
use crate::text::dec_str;
use vstd::prelude::*;

verus! {

/// Why a test run stops before its cases are done, or cannot start.
#[derive(Debug, Clone, Copy, PartialEq, Eq, Structural)]
pub enum TestError {
    /// the problem is not known upstream
    ProblemNotFound,
    /// no usable interpreter was found
    ToolchainMissing,
    /// the compiler exited with a failure status
    CompilationFailed,
    /// official data was asked for, but the contest has not released any
    OfficialDataUnavailable,
    /// a filesystem or process-spawn failure in the surrounding
    /// environment
    IoFailure,
}

/// The skip/rebuild decision: the artifact counts as fresh exactly when
/// both files exist and the artifact is strictly newer than the source.
/// A missing file on either side is never "newer".
pub open spec fn artifact_fresh_spec(source_mtime: Option<u64>, artifact_mtime: Option<u64>) -> bool {
    match (source_mtime, artifact_mtime) {
        (Some(s), Some(a)) => a > s,
        _ => false,
    }
}

/// Decide whether compilation can be skipped, from the two files'
/// modification times (`None` for a file that does not exist).
pub fn artifact_fresh(source_mtime: Option<u64>, artifact_mtime: Option<u64>) -> (r: bool)
    ensures
        r == artifact_fresh_spec(source_mtime, artifact_mtime),
{
    match (source_mtime, artifact_mtime) {
        (Some(s), Some(a)) => a > s,
        _ => false,
    }
}

/// The staleness check is idempotent: as long as neither file changes,
/// repeating it gives the same skip/rebuild decision.
pub proof fn lemma_staleness_idempotent(
    source_first: Option<u64>,
    artifact_first: Option<u64>,
    source_again: Option<u64>,
    artifact_again: Option<u64>,
)
    requires
        source_first == source_again,
        artifact_first == artifact_again,
    ensures
        artifact_fresh_spec(source_first, artifact_first) == artifact_fresh_spec(
            source_again,
            artifact_again,
        ),
{
}

/// The compiler executable for a compiler choice.
pub fn compiler_program(compiler: CPPCompiler) -> (r: &'static str)
    ensures
        compiler == CPPCompiler::GCC ==> r@ == "g++"@,
        compiler == CPPCompiler::Clang ==> r@ == "clang"@,
{
    match compiler {
        CPPCompiler::GCC => "g++",
        CPPCompiler::Clang => "clang",
    }
}

/// The compiler's argument list: all warnings, debug info, then the
/// output path and the source path.
pub fn compile_args(out_file: &str, source_file: &str) -> (r: Vec<String>)
    ensures
        r@.len() == 5,
        r@[0]@ == "-Wall"@,
        r@[1]@ == "-g"@,
        r@[2]@ == "-o"@,
        r@[3]@ == out_file@,
        r@[4]@ == source_file@,
{
    let mut args: Vec<String> = Vec::new();
    args.push(String::from_str("-Wall"));
    args.push(String::from_str("-g"));
    args.push(String::from_str("-o"));
    args.push(out_file.to_owned());
    args.push(source_file.to_owned());
    args
}

/// The interpreter names probed for the scripting toolchain, in priority
/// order, covering differently named installations across platforms.
pub fn interpreter_candidates() -> (r: [&'static str; 5])
    ensures
        r@.len() == 5,
        r@[0]@ == "python3"@,
        r@[1]@ == "python2"@,
        r@[2]@ == "python"@,
        r@[3]@ == "py3"@,
        r@[4]@ == "py"@,
{
    ["python3", "python2", "python", "py3", "py"]
}

/// What one spawn probe of a candidate interpreter reported.
#[derive(Debug, Clone, Copy, PartialEq, Eq, Structural)]
pub enum ProbeOutcome {
    /// the candidate launched
    Launched,
    /// the binary was not found
    Missing,
    /// the spawn failed for another reason
    Failed,
}

/// What to do after one probe.
#[derive(Debug, Clone, Copy, PartialEq, Eq, Structural)]
pub enum ProbeStep {
    /// take this candidate
    UseCandidate,
    /// move on to the next candidate
    TryNext,
    /// stop probing and surface the failure
    Abort,
}

/// Decide the next step of interpreter discovery: a launch accepts the
/// candidate, a missing binary is no error and moves on, and any other
/// spawn failure stops the search.
pub fn probe_decision(outcome: &ProbeOutcome) -> (r: ProbeStep)
    ensures
        *outcome == ProbeOutcome::Launched ==> r == ProbeStep::UseCandidate,
        *outcome == ProbeOutcome::Missing ==> r == ProbeStep::TryNext,
        *outcome == ProbeOutcome::Failed ==> r == ProbeStep::Abort,
{
    match outcome {
        ProbeOutcome::Launched => ProbeStep::UseCandidate,
        ProbeOutcome::Missing => ProbeStep::TryNext,
        ProbeOutcome::Failed => ProbeStep::Abort,
    }
}

/// The seconds one case may run, given the time-limit flag's value: an
/// explicit non-negative value stands; the flag's bare form (carried as
/// -1) takes the toolchain default, 2 s for the compiled language and 4 s
/// for the interpreted one; any other negative falls back to 2 s.
pub open spec fn resolved_time_limit(requested: i8, lang: Language) -> u64 {
    if requested == -1 {
        if lang == Language::CPP {
            2
        } else {
            4
        }
    } else if requested >= 0 {
        requested as u64
    } else {
        2
    }
}

/// Resolve the per-case time limit; no flag means no limit at all.
pub fn effective_time_limit(requested: Option<i8>, lang: Language) -> (r: Option<u64>)
    ensures
        requested is None ==> r is None,
        requested matches Some(t) ==> r == Some(resolved_time_limit(t, lang)),
{
    match requested {
        None => None,
        Some(t) => {
            if t == -1 {
                match lang {
                    Language::CPP => Some(2),
                    Language::Python => Some(4),
                }
            } else if t >= 0 {
                Some(t as u64)
            } else {
                Some(2)
            }
        },
    }
}

/// Per-case I/O wiring, fixed before the process is spawned.
#[derive(Debug)]
pub struct CasePlan {
    /// file to write before spawning: its name and the case input
    pub file_to_write: Option<(String, String)>,
    /// text to pipe into standard input after spawning
    pub stdin_data: Option<String>,
    /// file to read after exit, in place of captured standard output
    pub file_to_read: Option<String>,
}

/// Wire one case's I/O from the problem's modes: a file input mode means
/// the input file must be written before the spawn, a stdio input mode
/// means the input is piped in after it; a file output mode means the
/// named file is read after exit instead of captured standard output.
pub fn plan_case_io(input: &IoMode, output: &IoMode, case_input: &str) -> (r: CasePlan)
    ensures
        input matches IoMode::File(name) ==> (r.file_to_write matches Some(w) && w.0@ == name@
            && w.1@ == case_input@) && r.stdin_data is None,
        input is Stdio ==> r.file_to_write is None && (r.stdin_data matches Some(d) && d@
            == case_input@),
        output matches IoMode::File(name) ==> r.file_to_read matches Some(f) && f@ == name@,
        output is Stdio ==> r.file_to_read is None,
{
    let file_to_write = match input {
        IoMode::File(name) => Some((name.clone(), case_input.to_owned())),
        IoMode::Stdio => None,
    };
    let stdin_data = match input {
        IoMode::File(_) => None,
        IoMode::Stdio => Some(case_input.to_owned()),
    };
    let file_to_read = match output {
        IoMode::File(name) => Some(name.clone()),
        IoMode::Stdio => None,
    };
    CasePlan { file_to_write, stdin_data, file_to_read }
}

/// The file names an I/O mode pair leaves in the working directory:
/// the input-mode name, then the output-mode name.
pub open spec fn scratch_names(input: &IoMode, output: &IoMode) -> Seq<Seq<char>> {
    (match input {
        IoMode::File(name) => seq![name@],
        IoMode::Stdio => Seq::empty(),
    }) + (match output {
        IoMode::File(name) => seq![name@],
        IoMode::Stdio => Seq::empty(),
    })
}

/// The scratch files a run leaves in the working directory — the
/// I/O-mode file names, in both directions — to be deleted once the last
/// case is done.
pub fn cleanup_files(input: &IoMode, output: &IoMode) -> (r: Vec<String>)
    ensures
        r@.map_values(|s: String| s@) == scratch_names(input, output),
{
    let mut files: Vec<String> = Vec::new();
    if let IoMode::File(name) = input {
        files.push(name.clone());
    }
    if let IoMode::File(name) = output {
        files.push(name.clone());
    }
    proof {
        assert(files@.map_values(|s: String| s@) =~= scratch_names(input, output));
    }
    files
}

/// What one spawned case reported back.
#[derive(Debug)]
pub enum CaseOutcome {
    /// the process exited; this is its collected output text
    Completed { output: String },
    /// the process did not exit within its time limit
    TimedOut,
}

/// The verdict on one case.
#[derive(Debug, Clone, Copy, PartialEq, Eq, Structural)]
pub enum CaseVerdict {
    Passed,
    Failed,
    TimedOut,
}

/// The verdict a case outcome earns against its expected output: a
/// timed-out case is reported as timed out; otherwise the outputs are
/// compared for equality after trimming whitespace at the edges.
pub open spec fn verdict_of(expected: Seq<char>, outcome: CaseOutcome) -> CaseVerdict {
    match outcome {
        CaseOutcome::TimedOut => CaseVerdict::TimedOut,
        CaseOutcome::Completed { output } => if trim_spec(output@) == trim_spec(expected) {
            CaseVerdict::Passed
        } else {
            CaseVerdict::Failed
        },
    }
}

/// Judge one case.
pub fn judge_case(expected: &str, outcome: &CaseOutcome) -> (r: CaseVerdict)
    ensures
        r == verdict_of(expected@, *outcome),
{
    match outcome {
        CaseOutcome::TimedOut => CaseVerdict::TimedOut,
        CaseOutcome::Completed { output } => {
            if crate::compare::outputs_match(expected, output.as_str()) {
                CaseVerdict::Passed
            } else {
                CaseVerdict::Failed
            }
        },
    }
}

/// Where the cases of a run come from.
#[derive(Debug)]
pub enum CaseSource {
    /// the sample cases bundled with the problem
    Sample,
    /// the official archive at this address must be fetched
    FetchOfficial(String),
    /// official data was asked for but none has been released
    Unavailable,
}

/// Decide the test-case set: the bundled samples, unless official data
/// is asked for — then the released archive, whose absence (a contest
/// still in progress) is a hard failure for the run.
pub fn resolve_case_source(use_official: bool, released: &Option<ReleasedProblemData>) -> (r:
    CaseSource)
    ensures
        !use_official ==> r is Sample,
        use_official ==> match *released {
            Some(rd) => r matches CaseSource::FetchOfficial(url) && url@
                == rd.official_test_case_url@,
            None => r is Unavailable,
        },
{
    if !use_official {
        CaseSource::Sample
    } else {
        match released {
            Some(rd) => CaseSource::FetchOfficial(rd.official_test_case_url.clone()),
            None => CaseSource::Unavailable,
        }
    }
}

/// The solution file name of a problem: its id, a dot, the language's
/// extension.
pub fn solution_file_name(id: u64, lang: Language) -> (r: String)
    ensures
        r@ == dec_str(id as int) + "."@ + lang_ext(lang),
{
    let mut name = crate::text::u64_to_string(id);
    name.append(".");
    let ext = Language::to_str(&lang);
    name.append(ext);
    name
}

/// The path of the solution source below the solutions directory:
/// `src/<division>/<id>.<ext>`, as components for the caller to join.
pub fn solution_path_components(division: Division, id: u64, lang: Language) -> (r: Vec<String>)
    ensures
        r@.len() == 3,
        r@[0]@ == "src"@,
        r@[1]@ == division_name(division),
        r@[2]@ == dec_str(id as int) + "."@ + lang_ext(lang),
{
    let mut parts: Vec<String> = Vec::new();
    parts.push(String::from_str("src"));
    parts.push(String::from_str(division.to_str()));
    parts.push(solution_file_name(id, lang));
    parts
}

/// The path of the compiled binary below the solutions directory:
/// `bin/<division>/<id>`, as components for the caller to join.
pub fn binary_path_components(division: Division, id: u64) -> (r: Vec<String>)
    ensures
        r@.len() == 3,
        r@[0]@ == "bin"@,
        r@[1]@ == division_name(division),
        r@[2]@ == dec_str(id as int),
{
    let mut parts: Vec<String> = Vec::new();
    parts.push(String::from_str("bin"));
    parts.push(String::from_str(division.to_str()));
    parts.push(crate::text::u64_to_string(id));
    parts
}

/// The phase a run is in.
#[derive(Debug, Clone, Copy, PartialEq, Eq, Structural)]
pub enum RunPhase {
    /// waiting for the compiler's exit status
    Compiling,
    /// waiting for the test-case set
    AwaitingCases,
    /// running the case after the last judged one
    RunningCases,
    /// all cases judged; scratch files must still be removed
    CleaningUp,
    /// run complete
    Done,
    /// run aborted
    Failed(TestError),
}

/// One verification run, stepped by the caller as outside work finishes.
/// The machine owns the sequencing: compilation first (when needed) and
/// fatal when it fails, then the case set, then the cases one at a time
/// in order — a timed-out case is recorded and the run moves on — and
/// cleanup once, after the last case.
#[derive(Debug)]
pub struct RunSession {
    phase: RunPhase,
    cases: Vec<TestCase>,
    verdicts: Vec<CaseVerdict>,
}

impl RunSession {
    /// The phase the run is in.
    pub closed spec fn phase(&self) -> RunPhase {
        self.phase
    }

    /// The cases of the run, once provided.
    pub closed spec fn cases(&self) -> Seq<TestCase> {
        self.cases@
    }

    /// The verdicts so far, one per finished case, in case order.
    pub closed spec fn verdicts(&self) -> Seq<CaseVerdict> {
        self.verdicts@
    }

    /// The session invariant: verdicts never outnumber cases; while cases
    /// run there is a current case; before the cases arrive there are
    /// none; once cleanup starts every case is judged.
    pub open spec fn wf(&self) -> bool {
        &&& self.verdicts().len() <= self.cases().len()
        &&& (self.phase() == RunPhase::RunningCases ==> self.verdicts().len()
            < self.cases().len())
        &&& ((self.phase() == RunPhase::Compiling || self.phase() == RunPhase::AwaitingCases)
            ==> self.cases().len() == 0 && self.verdicts().len() == 0)
        &&& ((self.phase() == RunPhase::CleaningUp || self.phase() == RunPhase::Done)
            ==> self.verdicts().len() == self.cases().len())
    }

    /// Begin a run: with a compiled toolchain and a stale artifact the
    /// compiler goes first, otherwise the case set is next.
    pub fn start(needs_compile: bool) -> (r: RunSession)
        ensures
            r.wf(),
            needs_compile ==> r.phase() == RunPhase::Compiling,
            !needs_compile ==> r.phase() == RunPhase::AwaitingCases,
            r.cases().len() == 0,
            r.verdicts().len() == 0,
    {
        RunSession {
            phase: if needs_compile {
                RunPhase::Compiling
            } else {
                RunPhase::AwaitingCases
            },
            cases: Vec::new(),
            verdicts: Vec::new(),
        }
    }

    /// Record the compiler's exit: success moves on to the case set; a
    /// failure is fatal, and no case is ever attempted.
    pub fn on_compile_result(&mut self, success: bool)
        requires
            old(self).wf(),
            old(self).phase() == RunPhase::Compiling,
        ensures
            final(self).wf(),
            success ==> final(self).phase() == RunPhase::AwaitingCases,
            !success ==> final(self).phase() == RunPhase::Failed(TestError::CompilationFailed),
            final(self).cases() == old(self).cases(),
            final(self).verdicts().len() == 0,
    {
        self.phase = if success {
            RunPhase::AwaitingCases
        } else {
            RunPhase::Failed(TestError::CompilationFailed)
        };
    }

    /// Provide the resolved test cases; an empty set goes straight to
    /// cleanup.
    pub fn on_cases(&mut self, cases: Vec<TestCase>)
        requires
            old(self).wf(),
            old(self).phase() == RunPhase::AwaitingCases,
        ensures
            final(self).wf(),
            final(self).cases() == cases@,
            final(self).verdicts().len() == 0,
            cases@.len() > 0 ==> final(self).phase() == RunPhase::RunningCases,
            cases@.len() == 0 ==> final(self).phase() == RunPhase::CleaningUp,
    {
        self.phase = if cases.len() > 0 {
            RunPhase::RunningCases
        } else {
            RunPhase::CleaningUp
        };
        self.cases = cases;
    }

    /// Record that the case set could not be had — official data asked
    /// for where none is released. Fatal to the run.
    pub fn on_cases_unavailable(&mut self)
        requires
            old(self).wf(),
            old(self).phase() == RunPhase::AwaitingCases,
        ensures
            final(self).wf(),
            final(self).phase() == RunPhase::Failed(TestError::OfficialDataUnavailable),
            final(self).verdicts().len() == 0,
    {
        self.phase = RunPhase::Failed(TestError::OfficialDataUnavailable);
    }

    /// The case to run next: the one after the last judged case.
    pub fn current_case(&self) -> (r: Option<&TestCase>)
        requires
            self.wf(),
        ensures
            self.phase() == RunPhase::RunningCases ==> ({
                let k = self.verdicts().len() as int;
                r matches Some(tc) && *tc == self.cases()[k]
            }),
            self.phase() != RunPhase::RunningCases ==> r is None,
    {
        match self.phase {
            RunPhase::RunningCases => Some(&self.cases[self.verdicts.len()]),
            _ => None,
        }
    }

    /// Record one case's outcome. The verdict is judged against the
    /// case's expected output and appended; a timed-out case does not
    /// stop the run — the next case follows, and cleanup only after the
    /// last one.
    pub fn on_case_outcome(&mut self, outcome: &CaseOutcome)
        requires
            old(self).wf(),
            old(self).phase() == RunPhase::RunningCases,
        ensures
            final(self).wf(),
            final(self).cases() == old(self).cases(),
            final(self).verdicts() == old(self).verdicts().push(
                verdict_of(old(self).cases()[old(self).verdicts().len() as int].output@, *outcome),
            ),
            final(self).verdicts().len() < final(self).cases().len() ==> final(self).phase()
                == RunPhase::RunningCases,
            final(self).verdicts().len() == final(self).cases().len() ==> final(self).phase()
                == RunPhase::CleaningUp,
    {
        let k = self.verdicts.len();
        let verdict = judge_case(self.cases[k].output.as_str(), outcome);
        self.verdicts.push(verdict);
        if self.verdicts.len() == self.cases.len() {
            self.phase = RunPhase::CleaningUp;
        }
    }

    /// Record that the scratch files have been removed: the run is done.
    pub fn on_cleanup_done(&mut self)
        requires
            old(self).wf(),
            old(self).phase() == RunPhase::CleaningUp,
        ensures
            final(self).wf(),
            final(self).phase() == RunPhase::Done,
            final(self).cases() == old(self).cases(),
            final(self).verdicts() == old(self).verdicts(),
    {
        self.phase = RunPhase::Done;
    }

    /// The phase, for the caller driving the run.
    pub fn current_phase(&self) -> (r: RunPhase)
        ensures
            r == self.phase(),
    {
        self.phase
    }

    /// The verdicts so far, one per finished case, in case order.
    pub fn verdict_list(&self) -> (r: &Vec<CaseVerdict>)
        ensures
            r@ == self.verdicts(),
    {
        &self.verdicts
    }
}

} // verus!
