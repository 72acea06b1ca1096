//! The run of the benchmarking tool over every project and metric, as a
//! machine that is told what happened and says what to do next. The caller
//! does the work: it resets the scratch directory and reads the clock,
//! lists the projects, starts the tool and waits for it.

use crate::collect::gather;
use crate::decimal::numeral;
use crate::decimal::render;
use crate::collect::lemma_gather_empty;
use crate::collect::lemma_gather_next;
use crate::exceptions::IOError;
use crate::exceptions::IOErrorView;
use crate::exceptions::RunnerError;
use crate::exceptions::RunnerErrorView;
use crate::text::views;
use crate::types::CmdView;
use crate::types::HyperfineCmd;
use crate::types::Metric;
use crate::types::MetricView;
use crate::types::Timestamp;
use vstd::prelude::*;

verus! {

/// One entry of the projects directory, as far as it could be read.
#[derive(Debug)]
pub enum ProjectEntry {
    /// The entry itself could not be read.
    Unreadable(std::io::Error),
    /// The entry's path names no file.
    Nameless(String),
    /// The entry's file name is not Unicode.
    NotUnicode(String),
    /// A project: its path and its name.
    Project(String, String),
}

/// What an entry of the directory `dir` gives: the path and name of a
/// project, or the failure to read them.
pub open spec fn project_of(dir: Seq<char>, entry: ProjectEntry) -> Result<
    (Seq<char>, Seq<char>),
    IOErrorView,
> {
    match entry {
        ProjectEntry::Unreadable(cause) => Err(IOErrorView::ReadErr(dir, Some(cause))),
        ProjectEntry::Nameless(path) => Err(IOErrorView::MissingFilenameErr(path@)),
        ProjectEntry::NotUnicode(path) => Err(IOErrorView::FilenameNotUnicodeErr(path@)),
        ProjectEntry::Project(path, name) => Ok((path@, name@)),
    }
}

/// Every project with every metric: project by project, and for each
/// project the metrics in their order.
pub open spec fn pairs_of(projects: Seq<(Seq<char>, Seq<char>)>, metrics: Seq<CmdView>) -> Seq<
    (Seq<char>, Seq<char>, CmdView),
>
    decreases projects.len(),
{
    if projects.len() == 0 {
        Seq::empty()
    } else {
        pairs_of(projects.drop_last(), metrics) + metrics.map_values(
            |m: CmdView| (projects.last().0, projects.last().1, m),
        )
    }
}

/// The pairs of project and metric that are to be run, from the entries of
/// the projects directory `dir`; or the failure of the first entry that is
/// no project.
pub open spec fn projects_spec(dir: Seq<char>, entries: Seq<ProjectEntry>, metrics: Seq<CmdView>)
    -> Result<Seq<(Seq<char>, Seq<char>, CmdView)>, IOErrorView> {
    match gather(entries.map_values(|e: ProjectEntry| project_of(dir, e))) {
        Ok(projects) => Ok(pairs_of(projects, metrics)),
        Err(failure) => Err(failure),
    }
}

/// Pairs every project among the entries of the directory `dir` with every
/// metric.
pub fn get_projects<'a>(dir: &str, entries: Vec<ProjectEntry>, metrics: &Vec<HyperfineCmd<'a>>) -> (r:
    Result<Vec<(String, String, HyperfineCmd<'a>)>, IOError>)
    ensures
        match r {
            Ok(pairs) => projects_spec(dir@, entries@, views(metrics@)) == Ok::<
                Seq<(Seq<char>, Seq<char>, CmdView)>,
                IOErrorView,
            >(views(pairs@)),
            Err(e) => projects_spec(dir@, entries@, views(metrics@)) == Err::<
                Seq<(Seq<char>, Seq<char>, CmdView)>,
                IOErrorView,
            >(e@),
        },
{
    let ghost all = entries@.map_values(|e: ProjectEntry| project_of(dir@, e));
    let ghost mut projects: Seq<(Seq<char>, Seq<char>)> = Seq::empty();
    let mut rest = entries;
    let mut pairs: Vec<(String, String, HyperfineCmd<'a>)> = Vec::new();
    let ghost mut done: int = 0;
    proof {
        lemma_gather_empty(all.subrange(0, 0));
        assert(views(pairs@) =~= pairs_of(projects, views(metrics@)));
    }
    while rest.len() > 0
        invariant
            all == entries@.map_values(|e: ProjectEntry| project_of(dir@, e)),
            0 <= done,
            done + rest@.len() == entries@.len(),
            forall|k: int| 0 <= k < rest@.len() ==> rest@[k] == entries@[done + k],
            gather(all.subrange(0, done)) == Ok::<Seq<(Seq<char>, Seq<char>)>, IOErrorView>(
                projects,
            ),
            views(pairs@) == pairs_of(projects, views(metrics@)),
        decreases rest@.len(),
    {
        let entry = rest.remove(0);
        proof {
            lemma_gather_next(all, done);
            assert(all[done] == project_of(dir@, entry));
        }
        match entry {
            ProjectEntry::Unreadable(cause) => {
                return Err(IOError::ReadErr(dir.to_owned(), Some(cause)));
            },
            ProjectEntry::Nameless(path) => {
                return Err(IOError::MissingFilenameErr(path));
            },
            ProjectEntry::NotUnicode(path) => {
                return Err(IOError::FilenameNotUnicodeErr(path));
            },
            ProjectEntry::Project(path, name) => {
                let ghost before = views(pairs@);
                let ghost grown = projects.push((path@, name@));
                let ghost row = views(metrics@).map_values(|m: CmdView| (path@, name@, m));
                let mut j: usize = 0;
                while j < metrics.len()
                    invariant
                        j <= metrics@.len(),
                        row == views(metrics@).map_values(|m: CmdView| (path@, name@, m)),
                        views(pairs@) == before + row.subrange(0, j as int),
                    decreases metrics@.len() - j,
                {
                    let ghost so_far = views(pairs@);
                    let metric = &metrics[j];
                    pairs.push(
                        (
                            path.clone(),
                            name.clone(),
                            HyperfineCmd {
                                name: metric.name,
                                prepare: metric.prepare,
                                cmd: metric.cmd,
                            },
                        ),
                    );
                    proof {
                        assert(row[j as int] == (path@, name@, metrics@[j as int]@));
                        assert(views(pairs@) =~= so_far.push(row[j as int]));
                        assert(before + row.subrange(0, j + 1) =~= (before + row.subrange(
                            0,
                            j as int,
                        )).push(row[j as int]));
                    }
                    j += 1;
                }
                proof {
                    assert(row.subrange(0, j as int) =~= row);
                    assert(grown.drop_last() =~= projects);
                    projects = grown;
                }
            },
        }
        proof {
            done = done + 1;
        }
    }
    assert(all.subrange(0, done) =~= all);
    Ok(pairs)
}

/// What is added to every measured command: where the profiles are.
pub open spec fn profiles_flag() -> Seq<char> {
    " --profiles-dir ../../project_config/"@
}

/// The number of runs that a sample is taken from. Only the first of the
/// two timings is used.
pub const SAMPLE_RUNS: i32 = 2;

/// One call of the benchmarking tool: where it runs, what it measures and
/// how often, and the file in `out_dir` that it writes its output to.
#[derive(Debug, Clone, PartialEq, Eq)]
pub struct Invocation {
    pub run_dir: String,
    pub command: String,
    pub prepare: String,
    pub runs: i32,
    pub out_dir: String,
    pub file_name: String,
}

/// A call of the benchmarking tool, as plain values.
pub struct InvocationView {
    pub run_dir: Seq<char>,
    pub command: Seq<char>,
    pub prepare: Seq<char>,
    pub runs: i32,
    pub out_dir: Seq<char>,
    pub file_name: Seq<char>,
}

impl View for Invocation {
    type V = InvocationView;

    open spec fn view(&self) -> InvocationView {
        InvocationView {
            run_dir: self.run_dir@,
            command: self.command@,
            prepare: self.prepare@,
            runs: self.runs,
            out_dir: self.out_dir@,
            file_name: self.file_name@,
        }
    }
}

impl InvocationView {
    /// The call that times one metric of one project: it runs in the
    /// project's directory, and its output file is named for the metric.
    pub open spec fn of(pair: (Seq<char>, Seq<char>, CmdView), runs: i32, out_dir: Seq<char>)
        -> InvocationView {
        InvocationView {
            run_dir: pair.0,
            command: pair.2.cmd + profiles_flag(),
            prepare: pair.2.prepare,
            runs,
            out_dir,
            file_name: (MetricView { name: pair.2.name, project_name: pair.1 }).filename(),
        }
    }

    /// The arguments that the benchmarking tool is started with, given the
    /// path of the output file and the numeral of the run count.
    pub open spec fn arguments(self, runs: Seq<char>, output_file: Seq<char>) -> Seq<Seq<char>> {
        seq![
            "--warmup"@,
            "1"@,
            "--min-runs"@,
            runs,
            "--max-runs"@,
            runs,
            "--prepare"@,
            self.prepare,
            self.command,
            "--export-json"@,
            output_file,
            "--show-output"@,
        ]
    }
}

impl Invocation {
    /// The call that times `metric` on the project at `path` named `name`.
    pub fn of(path: &str, name: &str, metric: &HyperfineCmd, runs: i32, out_dir: &str) -> (r:
        Invocation)
        ensures
            r@ == InvocationView::of((path@, name@, metric@), runs, out_dir@),
    {
        let identity = Metric { name: metric.name.to_owned(), project_name: name.to_owned() };
        let mut command = metric.cmd.to_owned();
        command.append(" --profiles-dir ../../project_config/");
        Invocation {
            run_dir: path.to_owned(),
            command,
            prepare: metric.prepare.to_owned(),
            runs,
            out_dir: out_dir.to_owned(),
            file_name: identity.filename(),
        }
    }

    /// A copy of the call.
    pub fn duplicate(&self) -> (r: Invocation)
        ensures
            r@ == self@,
    {
        Invocation {
            run_dir: self.run_dir.clone(),
            command: self.command.clone(),
            prepare: self.prepare.clone(),
            runs: self.runs,
            out_dir: self.out_dir.clone(),
            file_name: self.file_name.clone(),
        }
    }

    /// The arguments that the benchmarking tool is started with: one warm-up
    /// run, exactly `runs` measured runs, the preparing and the measured
    /// command, and the export of the result as JSON to `output_file`.
    pub fn arguments(&self, output_file: &str) -> (r: Vec<String>)
        ensures
            views(r@) == self@.arguments(numeral(self.runs as int), output_file@),
    {
        let runs = render(self.runs);
        let mut arguments: Vec<String> = Vec::new();
        arguments.push("--warmup".to_owned());
        arguments.push("1".to_owned());
        arguments.push("--min-runs".to_owned());
        arguments.push(runs.clone());
        arguments.push("--max-runs".to_owned());
        arguments.push(runs);
        arguments.push("--prepare".to_owned());
        arguments.push(self.prepare.clone());
        arguments.push(self.command.clone());
        arguments.push("--export-json".to_owned());
        arguments.push(output_file.to_owned());
        arguments.push("--show-output".to_owned());
        assert(views(arguments@) =~= self@.arguments(numeral(self.runs as int), output_file@));
        arguments
    }
}

/// The calls that time the pairs, in the order of the pairs.
pub fn plan_of<'a>(pairs: &Vec<(String, String, HyperfineCmd<'a>)>, runs: i32, out_dir: &str) -> (r:
    Vec<Invocation>)
    ensures
        views(r@) == views(pairs@).map_values(
            |pair: (Seq<char>, Seq<char>, CmdView)| InvocationView::of(pair, runs, out_dir@),
        ),
{
    let ghost wanted = views(pairs@).map_values(
        |pair: (Seq<char>, Seq<char>, CmdView)| InvocationView::of(pair, runs, out_dir@),
    );
    let mut plan: Vec<Invocation> = Vec::new();
    let mut i: usize = 0;
    while i < pairs.len()
        invariant
            i <= pairs@.len(),
            wanted == views(pairs@).map_values(
                |pair: (Seq<char>, Seq<char>, CmdView)| InvocationView::of(pair, runs, out_dir@),
            ),
            views(plan@) == wanted.subrange(0, i as int),
        decreases pairs@.len() - i,
    {
        let ghost before = views(plan@);
        let pair = &pairs[i];
        let call = Invocation::of(pair.0.as_str(), pair.1.as_str(), &pair.2, runs, out_dir);
        plan.push(call);
        proof {
            assert(views(pairs@)[i as int] == (pair.0@, pair.1@, pair.2@));
            assert(views(plan@) =~= before.push(call@));
            assert(wanted.subrange(0, i + 1) =~= wanted.subrange(0, i as int).push(
                wanted[i as int],
            ));
        }
        i += 1;
    }
    assert(wanted.subrange(0, i as int) =~= wanted);
    plan
}

/// How far a run has come.
#[derive(Debug, Clone, Copy, PartialEq, Eq, Structural)]
pub enum Stage {
    /// Nothing was done yet.
    Idle,
    /// The scratch directory is being deleted and made anew.
    Resetting,
    /// The projects are being listed. The time is that at which the
    /// scratch directory was reported ready: the one time of the run.
    Listing(Timestamp),
    /// The call with this index in the plan is running.
    Running(Timestamp, usize),
    /// Every call has ended well; the outputs can be read.
    Done,
    /// The run was aborted.
    Failed,
}

/// What the caller reports to the machine.
#[derive(Debug)]
pub enum Event {
    /// The run is to begin.
    Begin,
    /// The scratch directory is empty and there; with the time at which
    /// it was found so.
    ScratchReady(Timestamp),
    /// The scratch directory could not be deleted and made anew.
    ScratchFailed(std::io::Error),
    /// The entries of the projects directory.
    Listed(Vec<ProjectEntry>),
    /// The projects directory could not be read.
    ListFailed(std::io::Error),
    /// The benchmarking tool has ended, with this exit code if it has one.
    Exited(Option<i32>),
    /// The benchmarking tool could not be started.
    LaunchFailed(std::io::Error),
}

/// What the machine asks of the caller.
#[derive(Debug)]
pub enum Action {
    /// Delete this directory with all that is in it, and make it anew.
    ResetScratch(String),
    /// List the entries of this directory.
    ListProjects(String),
    /// Make this call of the benchmarking tool and wait for its end.
    Run(Invocation),
    /// Read every output in this directory; the samples or baselines made
    /// from them bear this time.
    Collect(String, Timestamp),
    /// Give the run up with this failure.
    Abort(RunnerError),
    /// Nothing: the event does not belong to the stage, or the run is over.
    Nothing,
}

/// What the machine asks of the caller, as plain values.
pub enum ActionView {
    ResetScratch(Seq<char>),
    ListProjects(Seq<char>),
    Run(InvocationView),
    Collect(Seq<char>, Timestamp),
    Abort(RunnerErrorView),
    Nothing,
}

impl View for Action {
    type V = ActionView;

    open spec fn view(&self) -> ActionView {
        match self {
            Action::ResetScratch(dir) => ActionView::ResetScratch(dir@),
            Action::ListProjects(dir) => ActionView::ListProjects(dir@),
            Action::Run(call) => ActionView::Run(call@),
            Action::Collect(dir, ts) => ActionView::Collect(dir@, *ts),
            Action::Abort(failure) => ActionView::Abort(failure@),
            Action::Nothing => ActionView::Nothing,
        }
    }
}

/// One run of the benchmarking tool over every project and metric.
#[derive(Debug)]
pub struct Pipeline<'a> {
    pub stage: Stage,
    pub projects_dir: String,
    pub scratch: String,
    pub runs: i32,
    pub metrics: Vec<HyperfineCmd<'a>>,
    pub plan: Vec<Invocation>,
}

/// A run, as plain values.
pub struct PipelineView {
    pub stage: Stage,
    pub projects_dir: Seq<char>,
    pub scratch: Seq<char>,
    pub runs: i32,
    pub metrics: Seq<CmdView>,
    pub plan: Seq<InvocationView>,
}

impl<'a> View for Pipeline<'a> {
    type V = PipelineView;

    open spec fn view(&self) -> PipelineView {
        PipelineView {
            stage: self.stage,
            projects_dir: self.projects_dir@,
            scratch: self.scratch@,
            runs: self.runs,
            metrics: views(self.metrics@),
            plan: views(self.plan@),
        }
    }
}

impl PipelineView {
    /// The run at another stage.
    pub open spec fn at(self, stage: Stage) -> PipelineView {
        PipelineView { stage, ..self }
    }

    /// The run given up.
    pub open spec fn abort(self, failure: RunnerErrorView) -> (PipelineView, ActionView) {
        (self.at(Stage::Failed), ActionView::Abort(failure))
    }

    /// What follows when the call with the index `next` is due: that call,
    /// or the reading of the outputs when the plan is through.
    pub open spec fn proceed(self, ts: Timestamp, next: int) -> (PipelineView, ActionView) {
        if 0 <= next < self.plan.len() {
            (self.at(Stage::Running(ts, next as usize)), ActionView::Run(self.plan[next]))
        } else {
            (self.at(Stage::Done), ActionView::Collect(self.scratch, ts))
        }
    }

    /// The run after an event, and what is asked of the caller.
    ///
    /// The stages follow each other: reset the scratch directory, list the
    /// projects, make the calls one after the other, read the outputs. The
    /// time at which the scratch directory is ready is kept for the whole
    /// run. Any failure aborts the run, and so does a call that ends with an
    /// exit code other than zero. An event that does not belong to the stage
    /// changes nothing.
    pub open spec fn react(self, event: Event) -> (PipelineView, ActionView) {
        match (self.stage, event) {
            (Stage::Idle, Event::Begin) => (
                self.at(Stage::Resetting),
                ActionView::ResetScratch(self.scratch),
            ),
            (Stage::Resetting, Event::ScratchReady(ts)) => (
                self.at(Stage::Listing(ts)),
                ActionView::ListProjects(self.projects_dir),
            ),
            (Stage::Resetting, Event::ScratchFailed(cause)) => self.abort(
                RunnerErrorView::RunnerIOError(
                    IOErrorView::CannotRecreateTempDirErr(self.scratch, cause),
                ),
            ),
            (Stage::Listing(ts), Event::Listed(entries)) => match projects_spec(
                self.projects_dir,
                entries@,
                self.metrics,
            ) {
                Ok(pairs) => (PipelineView {
                    plan: pairs.map_values(
                        |pair: (Seq<char>, Seq<char>, CmdView)|
                            InvocationView::of(pair, self.runs, self.scratch),
                    ),
                    ..self
                }).proceed(ts, 0),
                Err(failure) => self.abort(RunnerErrorView::RunnerIOError(failure)),
            },
            (Stage::Listing(ts), Event::ListFailed(cause)) => self.abort(
                RunnerErrorView::RunnerIOError(IOErrorView::ReadErr(self.projects_dir, Some(cause))),
            ),
            (Stage::Running(ts, index), Event::Exited(code)) => match code {
                Some(c) if c != 0 => self.abort(RunnerErrorView::HyperfineNonZeroExitCode(c)),
                _ => self.proceed(ts, index + 1),
            },
            (Stage::Running(ts, index), Event::LaunchFailed(cause)) => self.abort(
                RunnerErrorView::RunnerIOError(IOErrorView::CommandErr(Some(cause))),
            ),
            _ => (self, ActionView::Nothing),
        }
    }

    /// What is asked of the caller, event by event.
    pub open spec fn trace(self, events: Seq<Event>) -> Seq<ActionView>
        decreases events.len(),
    {
        if events.len() == 0 {
            Seq::empty()
        } else {
            let (next, action) = self.react(events[0]);
            seq![action] + next.trace(events.skip(1))
        }
    }
}

impl<'a> Pipeline<'a> {
    /// A run that has not begun: `runs` timed runs of each of `metrics` on
    /// each project under `projects_dir`, with the outputs in `scratch`.
    pub fn new(projects_dir: &str, scratch: &str, runs: i32, metrics: Vec<HyperfineCmd<'a>>) -> (r:
        Pipeline<'a>)
        ensures
            r@ == (PipelineView {
                stage: Stage::Idle,
                projects_dir: projects_dir@,
                scratch: scratch@,
                runs,
                metrics: views(metrics@),
                plan: Seq::empty(),
            }),
    {
        let r = Pipeline {
            stage: Stage::Idle,
            projects_dir: projects_dir.to_owned(),
            scratch: scratch.to_owned(),
            runs,
            metrics,
            plan: Vec::new(),
        };
        assert(views(r.plan@) =~= Seq::<InvocationView>::empty());
        r
    }

    /// A run that has not begun and that takes samples: two runs each.
    pub fn sampling(projects_dir: &str, out_dir: &str, metrics: Vec<HyperfineCmd<'a>>) -> (r:
        Pipeline<'a>)
        ensures
            r@ == (PipelineView {
                stage: Stage::Idle,
                projects_dir: projects_dir@,
                scratch: out_dir@,
                runs: SAMPLE_RUNS,
                metrics: views(metrics@),
                plan: Seq::empty(),
            }),
    {
        Pipeline::new(projects_dir, out_dir, SAMPLE_RUNS, metrics)
    }

    /// Gives the run up.
    fn abort(&mut self, failure: RunnerError) -> (r: Action)
        ensures
            (final(self)@, r@) == old(self)@.abort(failure@),
    {
        self.stage = Stage::Failed;
        Action::Abort(failure)
    }

    /// Goes on to the call with the index `next`, or to the reading of the
    /// outputs.
    fn proceed(&mut self, ts: Timestamp, next: usize) -> (r: Action)
        ensures
            (final(self)@, r@) == old(self)@.proceed(ts, next as int),
    {
        if next < self.plan.len() {
            self.stage = Stage::Running(ts, next);
            assert(views(self.plan@)[next as int] == self.plan@[next as int]@);
            Action::Run(self.plan[next].duplicate())
        } else {
            self.stage = Stage::Done;
            Action::Collect(self.scratch.clone(), ts)
        }
    }

    /// Takes note of an event and says what is to be done next.
    pub fn step(&mut self, event: Event) -> (r: Action)
        ensures
            (final(self)@, r@) == old(self)@.react(event),
    {
        match event {
            Event::Begin => match self.stage {
                Stage::Idle => {
                    self.stage = Stage::Resetting;
                    Action::ResetScratch(self.scratch.clone())
                },
                _ => Action::Nothing,
            },
            Event::ScratchReady(ts) => match self.stage {
                Stage::Resetting => {
                    self.stage = Stage::Listing(ts);
                    Action::ListProjects(self.projects_dir.clone())
                },
                _ => Action::Nothing,
            },
            Event::ScratchFailed(cause) => match self.stage {
                Stage::Resetting => {
                    let failure = RunnerError::RunnerIOError(
                        IOError::CannotRecreateTempDirErr(self.scratch.clone(), cause),
                    );
                    self.abort(failure)
                },
                _ => Action::Nothing,
            },
            Event::Listed(entries) => match self.stage {
                Stage::Listing(ts) => match get_projects(
                    self.projects_dir.as_str(),
                    entries,
                    &self.metrics,
                ) {
                    Ok(pairs) => {
                        self.plan = plan_of(&pairs, self.runs, self.scratch.as_str());
                        self.proceed(ts, 0)
                    },
                    Err(failure) => self.abort(RunnerError::RunnerIOError(failure)),
                },
                _ => Action::Nothing,
            },
            Event::ListFailed(cause) => match self.stage {
                Stage::Listing(_) => {
                    let failure = RunnerError::RunnerIOError(
                        IOError::ReadErr(self.projects_dir.clone(), Some(cause)),
                    );
                    self.abort(failure)
                },
                _ => Action::Nothing,
            },
            Event::Exited(code) => match self.stage {
                Stage::Running(ts, index) => match code {
                    Some(c) if c != 0 => self.abort(RunnerError::HyperfineNonZeroExitCode(c)),
                    _ => if index < self.plan.len() {
                        self.proceed(ts, index + 1)
                    } else {
                        self.stage = Stage::Done;
                        Action::Collect(self.scratch.clone(), ts)
                    },
                },
                _ => Action::Nothing,
            },
            Event::LaunchFailed(cause) => match self.stage {
                Stage::Running(_, _) => self.abort(
                    RunnerError::RunnerIOError(IOError::CommandErr(Some(cause))),
                ),
                _ => Action::Nothing,
            },
        }
    }
}

/// Once a run is over, aborted or done, nothing more is asked for,
/// whatever is reported.
pub proof fn lemma_over_is_over(p: PipelineView, events: Seq<Event>)
    requires
        p.stage is Failed || p.stage is Done,
    ensures
        p.trace(events).len() == events.len(),
        forall|k: int| 0 <= k < events.len() ==> p.trace(events)[k] == ActionView::Nothing,
    decreases events.len(),
{
    if events.len() > 0 {
        assert(p.react(events[0]) == (p, ActionView::Nothing));
        lemma_over_is_over(p, events.skip(1));
    }
}

/// A call that ends with an exit code other than zero aborts the run with
/// that code, and no call is made and no output read after it, whatever is
/// reported later.
pub proof fn lemma_nonzero_exit_ends_the_run(p: PipelineView, code: i32, later: Seq<Event>)
    requires
        p.stage is Running,
        code != 0,
    ensures
        p.react(Event::Exited(Some(code))).1 == ActionView::Abort(
            RunnerErrorView::HyperfineNonZeroExitCode(code),
        ),
        p.react(Event::Exited(Some(code))).0.stage == Stage::Failed,
        forall|k: int|
            0 <= k < later.len() ==> p.react(Event::Exited(Some(code))).0.trace(later)[k]
                == ActionView::Nothing,
{
    lemma_over_is_over(p.react(Event::Exited(Some(code))).0, later);
}

} // verus!
