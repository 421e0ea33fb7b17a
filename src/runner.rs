//! The decisions of one experiment's run: which build-tool invocation comes
//! next (clean, build only, build and run), and what each outcome leads to.
//! Whoever performs the invocations times them and hands back the outcome.

use vstd::prelude::*;
use vstd::string::*;
use crate::merge::{
    MergeError, all_known, env_view, envs_of, has_knob, items_to_envs, merge_items, merge_spec,
};
use crate::model::{DefinedItem, ExpResult, Experiment, settings_view, strings_view};

verus! {

/// Where the sweep reads its project and keeps its files.
pub struct Options {
    /// The manifest of the project to explore.
    pub manifest_path: String,
    /// The directory of the state snapshot and the report.
    pub data_dir: String,
}

/// `name` inside directory `dir`, with a `/` between them unless `dir` is
/// empty or already ends with one.
pub open spec fn join_path(dir: Seq<char>, name: Seq<char>) -> Seq<char> {
    if dir.len() == 0 || dir.last() == '/' {
        dir + name
    } else {
        dir + "/"@ + name
    }
}

/// `name` inside directory `dir`.
fn join(dir: &String, name: &str) -> (r: String)
    ensures
        r@ == join_path(dir@, name@),
{
    let n = dir.as_str().unicode_len();
    let mut r = dir.clone();
    if n > 0 && dir.as_str().get_char(n - 1) != '/' {
        r.append("/");
    }
    r.append(name);
    r
}

impl Options {
    /// The path of the state snapshot.
    pub fn state_path(&self) -> (r: String)
        ensures
            r@ == join_path(self.data_dir@, "bcp-state.json"@),
    {
        join(&self.data_dir, "bcp-state.json")
    }

    /// The path of the HTML report.
    pub fn report_path(&self) -> (r: String)
        ensures
            r@ == join_path(self.data_dir@, "bcp-report.html"@),
    {
        join(&self.data_dir, "bcp-report.html")
    }
}

/// The path that a snapshot is written to before it is renamed over `path`.
pub fn temp_path(path: &String) -> (r: String)
    ensures
        r@ == path@ + ".tmp"@,
{
    let mut r = path.clone();
    r.append(".tmp");
    r
}

/// The three invocations of an experiment, in the order they run.
#[derive(PartialEq, Eq, Structural, Clone, Copy)]
pub enum Step {
    /// Discard earlier build artifacts, so that the build is timed in full.
    Clean,
    /// Build the benchmark target without running it; timed as the build.
    BuildOnly,
    /// Build and run the benchmark target; timed as the run.
    BuildAndRun,
}

/// The build-tool subcommand of a step.
pub open spec fn step_subcommand(step: Step) -> Seq<char> {
    match step {
        Step::Clean => "clean"@,
        _ => "bench"@,
    }
}

/// The extra arguments of a step.
pub open spec fn step_args(step: Step) -> Seq<Seq<char>> {
    match step {
        Step::BuildOnly => seq!["--no-run"@],
        _ => Seq::empty(),
    }
}

/// One build-tool invocation: subcommand, extra arguments and the
/// environment assignments of the experiment.
pub struct Invocation {
    pub subcommand: String,
    pub args: Vec<String>,
    pub envs: Vec<(String, String)>,
}

/// How an invocation ended. `elapsed` is in nanoseconds of a monotonic
/// clock; `status` is the exit code, where the process had one.
pub enum Outcome {
    Success { elapsed: u64 },
    Failure { status: Option<i32> },
}

/// An invocation that did not succeed: its step and exit code.
pub struct RunFailure {
    pub step: Step,
    pub status: Option<i32>,
}

/// An experiment under way: its environment, the step that runs next, and
/// the build time once the build-only step has been timed.
pub struct Runner {
    pub envs: Vec<(String, String)>,
    pub step: Step,
    pub build_time: u64,
}

/// What an outcome leads to.
pub enum RunStep {
    /// Go on with the next step.
    Next(Runner),
    /// The experiment is done, with these timings.
    Finished(ExpResult),
    /// The experiment failed; nothing of it is to be recorded.
    Failed(RunFailure),
}

/// Copies a list of environment assignments.
fn clone_envs(v: &Vec<(String, String)>) -> (r: Vec<(String, String)>)
    ensures
        env_view(r@) == env_view(v@),
{
    let mut r: Vec<(String, String)> = Vec::new();
    let mut i: usize = 0;
    while i < v.len()
        invariant
            i <= v@.len(),
            r@.len() == i,
            forall|j: int|
                0 <= j < i ==> (#[trigger] r@[j]).0@ == v@[j].0@ && r@[j].1@ == v@[j].1@,
        decreases v@.len() - i,
    {
        r.push((v[i].0.clone(), v[i].1.clone()));
        i += 1;
    }
    assert(env_view(r@) =~= env_view(v@));
    r
}

/// `inv` is the invocation of the current step of `n`.
pub open spec fn invocation_of(inv: Invocation, n: Runner) -> bool {
    &&& inv.subcommand@ == step_subcommand(n.step)
    &&& strings_view(inv.args@) == step_args(n.step)
    &&& env_view(inv.envs@) == env_view(n.envs@)
}

impl Runner {
    /// The invocation of the current step.
    pub fn invocation(&self) -> (r: Invocation)
        ensures
            invocation_of(r, *self),
    {
        let mut args: Vec<String> = Vec::new();
        let subcommand = match self.step {
            Step::Clean => String::from_str("clean"),
            Step::BuildOnly => {
                args.push(String::from_str("--no-run"));
                String::from_str("bench")
            },
            Step::BuildAndRun => String::from_str("bench"),
        };
        assert(strings_view(args@) =~= step_args(self.step));
        Invocation { subcommand, args, envs: clone_envs(&self.envs) }
    }

    /// The runner after `outcome` of the current step: a failure ends the
    /// experiment with that step's failure; a success moves on to the next
    /// step, keeping the build-only step's time as the build time and the
    /// build-and-run step's time as the run time.
    pub fn advance(self, outcome: Outcome) -> (r: RunStep)
        ensures
            match outcome {
                Outcome::Failure { status } => r == RunStep::Failed(
                    RunFailure { step: self.step, status },
                ),
                Outcome::Success { elapsed } => match self.step {
                    Step::Clean => r matches RunStep::Next(n) && n.step == Step::BuildOnly
                        && n.envs == self.envs,
                    Step::BuildOnly => r matches RunStep::Next(n) && n.step == Step::BuildAndRun
                        && n.envs == self.envs && n.build_time == elapsed,
                    Step::BuildAndRun => r == RunStep::Finished(
                        ExpResult { build_time: self.build_time, run_time: elapsed },
                    ),
                },
            },
    {
        match outcome {
            Outcome::Failure { status } => RunStep::Failed(RunFailure { step: self.step, status }),
            Outcome::Success { elapsed } => match self.step {
                Step::Clean => RunStep::Next(
                    Runner { envs: self.envs, step: Step::BuildOnly, build_time: self.build_time },
                ),
                Step::BuildOnly => RunStep::Next(
                    Runner { envs: self.envs, step: Step::BuildAndRun, build_time: elapsed },
                ),
                Step::BuildAndRun => RunStep::Finished(
                    ExpResult { build_time: self.build_time, run_time: elapsed },
                ),
            },
        }
    }
}

/// Starts an experiment: merges its settings into the baseline and sets the
/// environment of the merged configuration; the first step is the clean.
pub fn run_experiment(baseline: &Vec<DefinedItem>, case: &Experiment) -> (r: Result<
    Runner,
    MergeError,
>)
    ensures
        r is Ok <==> all_known(settings_view(baseline@), case@),
        r matches Ok(n) ==> n.step == Step::Clean && n.build_time == 0 && env_view(n.envs@)
            == envs_of(merge_spec(settings_view(baseline@), case@)),
        r matches Err(MergeError::UnknownKnob { position }) ==> {
            &&& position < case@.len()
            &&& !has_knob(settings_view(baseline@), case@[position as int].0)
            &&& forall|q: int|
                0 <= q < position ==> has_knob(settings_view(baseline@), #[trigger] case@[q].0)
        },
{
    match merge_items(baseline, &case.configs) {
        Ok(items) => Ok(Runner { envs: items_to_envs(&items), step: Step::Clean, build_time: 0 }),
        Err(e) => {
            proof {
                let MergeError::UnknownKnob { position } = e;
                assert(case@[position as int].0 == case.configs@[position as int].item@);
            }
            Err(e)
        },
    }
}

/// The arguments with which the build tool runs an invocation: the
/// subcommand, the project's manifest, the flags that let the environment
/// override profile settings, then the invocation's own arguments.
pub open spec fn cargo_args_of(manifest: Seq<char>, subcommand: Seq<char>, args: Seq<Seq<char>>) -> Seq<
    Seq<char>,
> {
    seq![
        subcommand,
        "--manifest-path="@ + manifest,
        "-vv"@,
        "-Zunstable-options"@,
        "-Zconfig-profile"@,
    ] + args
}

/// The environment of an invocation: the switch that allows unstable flags,
/// then the experiment's assignments.
pub open spec fn cargo_envs_of(envs: Seq<(Seq<char>, Seq<char>)>) -> Seq<(Seq<char>, Seq<char>)> {
    seq![("RUSTC_BOOTSTRAP"@, "1"@)] + envs
}

/// A process to start: program, arguments, environment assignments in
/// order (a later one overrides an earlier one of the same variable).
pub struct CargoCommand {
    pub program: String,
    pub args: Vec<String>,
    pub envs: Vec<(String, String)>,
}

/// The build-tool process for an invocation.
pub fn cargo_command(opts: &Options, inv: &Invocation) -> (r: CargoCommand)
    ensures
        r.program@ == "cargo"@,
        strings_view(r.args@) == cargo_args_of(
            opts.manifest_path@,
            inv.subcommand@,
            strings_view(inv.args@),
        ),
        env_view(r.envs@) == cargo_envs_of(env_view(inv.envs@)),
{
    let mut args: Vec<String> = Vec::new();
    args.push(inv.subcommand.clone());
    let mut manifest = String::from_str("--manifest-path=");
    manifest.append(opts.manifest_path.as_str());
    args.push(manifest);
    args.push(String::from_str("-vv"));
    args.push(String::from_str("-Zunstable-options"));
    args.push(String::from_str("-Zconfig-profile"));
    let mut i: usize = 0;
    while i < inv.args.len()
        invariant
            i <= inv.args@.len(),
            args@.len() == 5 + i,
            args@[0]@ == inv.subcommand@,
            args@[1]@ == "--manifest-path="@ + opts.manifest_path@,
            args@[2]@ == "-vv"@,
            args@[3]@ == "-Zunstable-options"@,
            args@[4]@ == "-Zconfig-profile"@,
            forall|j: int| 5 <= j < 5 + i ==> #[trigger] args@[j]@ == inv.args@[j - 5]@,
        decreases inv.args@.len() - i,
    {
        args.push(inv.args[i].clone());
        i += 1;
    }
    assert(strings_view(args@) =~= cargo_args_of(
        opts.manifest_path@,
        inv.subcommand@,
        strings_view(inv.args@),
    ));
    let mut envs: Vec<(String, String)> = Vec::new();
    envs.push((String::from_str("RUSTC_BOOTSTRAP"), String::from_str("1")));
    i = 0;
    while i < inv.envs.len()
        invariant
            i <= inv.envs@.len(),
            envs@.len() == 1 + i,
            envs@[0].0@ == "RUSTC_BOOTSTRAP"@,
            envs@[0].1@ == "1"@,
            forall|j: int|
                1 <= j < 1 + i ==> (#[trigger] envs@[j]).0@ == inv.envs@[j - 1].0@ && envs@[j].1@
                    == inv.envs@[j - 1].1@,
        decreases inv.envs@.len() - i,
    {
        envs.push((inv.envs[i].0.clone(), inv.envs[i].1.clone()));
        i += 1;
    }
    assert(env_view(envs@) =~= cargo_envs_of(env_view(inv.envs@)));
    CargoCommand { program: String::from_str("cargo"), args, envs }
}

/// The time between two readings of a monotonic clock, in nanoseconds; none
/// where the second reading is not later.
pub fn time(start: u64, end: u64) -> (r: u64)
    ensures
        r == if end >= start { end - start } else { 0 },
{
    if end >= start {
        end - start
    } else {
        0
    }
}

} // verus!
