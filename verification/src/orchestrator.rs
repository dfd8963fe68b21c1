//! What follows planning: the commands of a run, what their outcomes mean,
//! and the run itself as a machine that is told what happened and answers
//! with what to do next.

use vstd::prelude::*;
use crate::cli::{config_fault, dependency_views, deps_of, Craft};
use crate::dependencies::{command_fragment, fault_message, DependencyView};
use crate::errors::{Error, ErrorView};
use crate::paths::{path_extension, path_extension_of};
use crate::text::{
    append_chars, append_str, chars_of, copy_text, debug_quoted, join_texts, joined, push_text,
    quoted, signed_decimal, signed_decimal_text, text_of,
};

verus! {

/// What a command's exit code means for the run.
#[derive(Debug, Clone, Copy, PartialEq, Eq, Structural)]
pub enum Policy {
    /// The exit code is not looked at.
    Ignore,
    /// A failure is an error that the run returns.
    Report,
    /// A failure ends the process.
    Terminate,
}

/// Where a command runs.
#[derive(Debug, Clone, Copy, PartialEq, Eq, Structural)]
pub enum Place {
    /// In the working directory.
    WorkingDirectory,
    /// In the project directory.
    Project,
}

/// One outside command of a run.
#[derive(Debug, Clone, PartialEq, Eq)]
pub struct Step {
    /// The command line.
    pub command: String,
    /// Where it runs.
    pub place: Place,
    /// What its failure means.
    pub policy: Policy,
}

/// What a step holds.
pub struct StepView {
    pub command: Seq<char>,
    pub place: Place,
    pub policy: Policy,
}

impl View for Step {
    type V = StepView;

    open spec fn view(&self) -> StepView {
        StepView { command: self.command@, place: self.place, policy: self.policy }
    }
}

/// What each step of a list holds.
pub open spec fn step_views(steps: Seq<Step>) -> Seq<StepView> {
    steps.map_values(|s: Step| s@)
}

/// What an outcome means.
#[derive(Debug, Clone, PartialEq, Eq)]
pub enum Verdict {
    /// Go on with the next step.
    Continue,
    /// The run fails with this error.
    Fail(Error),
    /// The process ends with this code.
    Exit(i32),
}

/// `s` ends with `p`.
pub open spec fn ends_with(s: Seq<char>, p: Seq<char>) -> bool {
    p.len() <= s.len() && s.skip(s.len() - p.len()) == p
}

/// A written file is formatted when its extension ends in `rs`.
pub open spec fn wants_format(path: Seq<char>) -> bool {
    match path_extension_of(path) {
        Some(e) => ends_with(e, "rs"@),
        None => false,
    }
}

/// Of the written paths, those to format, in order.
pub open spec fn paths_to_format(written: Seq<Seq<char>>) -> Seq<Seq<char>>
    decreases written.len(),
{
    if written.len() == 0 {
        Seq::empty()
    } else if wants_format(written.last()) {
        paths_to_format(written.drop_last()).push(written.last())
    } else {
        paths_to_format(written.drop_last())
    }
}

/// The command that formats one file.
pub open spec fn format_command(path: Seq<char>) -> Seq<char> {
    "rustfmt "@ + path
}

/// The options that every verification stage is called with.
pub open spec fn cargo_flags(c: Craft) -> Seq<Seq<char>> {
    (if c.offline {
        seq!["--offline"@]
    } else {
        Seq::empty()
    }) + (if c.quiet_add || c.silent {
        seq!["--quiet"@]
    } else {
        Seq::empty()
    })
}

/// The command of a verification stage: `cargo`, the stage, and the options,
/// with one space between neighbours and one behind the stage even where
/// no option follows.
pub open spec fn cargo_command(c: Craft, stage: Seq<char>) -> Seq<char> {
    "cargo "@ + stage + " "@ + joined(cargo_flags(c), " "@)
}

/// The options that every addition of a dependency is called with.
pub open spec fn add_flags(c: Craft) -> Seq<Seq<char>> {
    (if c.quiet_add {
        seq!["-q"@]
    } else {
        Seq::empty()
    }) + (if c.offline {
        seq!["--offline"@]
    } else {
        Seq::empty()
    })
}

/// The command that adds one dependency.
pub open spec fn add_command(c: Craft, dep: Seq<char>) -> Seq<char> {
    "cargo add "@ + joined(add_flags(c).push(dep), " "@)
}

/// The dependencies that every project gets: `clap` with a command line
/// interface, then `iocore` and `serde`.
pub open spec fn baseline(c: Craft) -> Seq<Seq<char>> {
    (if c.spec_is_cli() {
        seq!["clap -F derive,env,string,unicode,wrap_help"@]
    } else {
        Seq::empty()
    }) + seq!["iocore"@, "serde -F derive"@]
}

/// The commands that add the dependencies: the baseline, then one for each
/// descriptor, in order.
pub open spec fn add_commands(c: Craft, deps: Seq<DependencyView>) -> Seq<Seq<char>> {
    (baseline(c) + deps.map_values(|d: DependencyView| command_fragment(d))).map_values(
        |d: Seq<char>| add_command(c, d),
    )
}

/// The verification stages, in their fixed order.
pub open spec fn stages(with_doc: bool) -> Seq<Seq<char>> {
    seq!["check"@, "build"@, "test"@] + (if with_doc {
        seq!["doc"@]
    } else {
        Seq::empty()
    })
}

/// What the failure of a stage means: that of the first stage is reported,
/// that of any later stage ends the process.
pub open spec fn stage_policy(stage: Seq<char>) -> Policy {
    if stage == "check"@ {
        Policy::Report
    } else {
        Policy::Terminate
    }
}

/// The commands of version control.
pub open spec fn git_commands() -> Seq<Seq<char>> {
    seq!["git init"@, "git add ."@]
}

/// The outside commands of a run, in order: the written sources are
/// formatted, the dependencies added, the project verified stage by stage,
/// and version control set up.
pub open spec fn steps_of(
    c: Craft,
    deps: Seq<DependencyView>,
    to_format: Seq<Seq<char>>,
    with_doc: bool,
) -> Seq<StepView> {
    to_format.map_values(
        |p: Seq<char>|
            StepView {
                command: format_command(p),
                place: Place::WorkingDirectory,
                policy: Policy::Ignore,
            },
    ) + add_commands(c, deps).map_values(
        |a: Seq<char>| StepView { command: a, place: Place::Project, policy: Policy::Ignore },
    ) + stages(with_doc).map_values(
        |s: Seq<char>|
            StepView {
                command: cargo_command(c, s),
                place: Place::Project,
                policy: stage_policy(s),
            },
    ) + git_commands().map_values(
        |g: Seq<char>| StepView { command: g, place: Place::Project, policy: Policy::Ignore },
    )
}

/// What is said of a command that failed.
pub open spec fn failure_message(command: Seq<char>, exit_code: int) -> Seq<char> {
    debug_quoted(command) + " failed with "@ + signed_decimal(exit_code)
}

/// What an outcome means, over views.
pub enum VerdictView {
    Continue,
    Fail(ErrorView),
    Exit(int),
}

impl View for Verdict {
    type V = VerdictView;

    open spec fn view(&self) -> VerdictView {
        match self {
            Verdict::Continue => VerdictView::Continue,
            Verdict::Fail(e) => VerdictView::Fail(e@),
            Verdict::Exit(c) => VerdictView::Exit(*c as int),
        }
    }
}

/// What the outcome of a step means. A step that could not be started fails
/// the run with that error. One that ended with success, or whose exit code
/// is not looked at, lets the run go on. A failure is reported as a
/// `ShellCommandError`, or ends the process with code 1, as the step's
/// policy has it.
pub open spec fn verdict_of(step: StepView, outcome: Result<int, ErrorView>) -> VerdictView {
    match outcome {
        Err(e) => VerdictView::Fail(e),
        Ok(code) => if code == 0 || step.policy == Policy::Ignore {
            VerdictView::Continue
        } else if step.policy == Policy::Report {
            VerdictView::Fail(
                ErrorView {
                    kind: "ShellCommandError"@,
                    message: failure_message(step.command, code),
                },
            )
        } else {
            VerdictView::Exit(1)
        },
    }
}

/// What an outcome holds.
pub open spec fn outcome_view(outcome: Result<i32, Error>) -> Result<int, ErrorView> {
    match outcome {
        Ok(code) => Ok(code as int),
        Err(e) => Err(e@),
    }
}

/// Appends a step to a list of steps.
fn push_step(steps: &mut Vec<Step>, step: Step)
    ensures
        step_views(final(steps)@) == step_views(old(steps)@).push(step@),
{
    let ghost before = step_views(steps@);
    steps.push(step);
    proof {
        assert(step_views(steps@) =~= before.push(step@));
    }
}

/// Whether the characters of `v` end with the literal `p`.
fn ends(v: &Vec<char>, p: &str) -> (r: bool)
    ensures
        r == ends_with(v@, p@),
{
    let q = chars_of(p);
    if q.len() > v.len() {
        return false;
    }
    let from = v.len() - q.len();
    let mut i: usize = 0;
    while i < q.len()
        invariant
            i <= q.len() <= v.len(),
            from == v.len() - q.len(),
            q@ == p@,
            forall|k: int| 0 <= k < i ==> v@[from + k] == #[trigger] q@[k],
        decreases q.len() - i,
    {
        if v[from + i] != q[i] {
            proof {
                assert(v@.skip(from as int)[i as int] == v@[from + i]);
            }
            return false;
        }
        i = i + 1;
    }
    proof {
        assert(v@.skip(from as int) =~= q@);
    }
    true
}

impl Step {
    /// What the outcome of the step means: it could not be started, and the
    /// run fails with that error; or it ended with success, or with a code
    /// that is not looked at, and the run goes on; or it failed, and the
    /// failure is reported as a `ShellCommandError` or ends the process
    /// with code 1, as the step's policy has it.
    pub fn verdict(&self, outcome: Result<i32, Error>) -> (r: Verdict)
        ensures
            r@ == verdict_of(self@, outcome_view(outcome)),
            outcome is Err ==> r == Verdict::Fail(outcome->Err_0),
    {
        match outcome {
            Err(e) => Verdict::Fail(e),
            Ok(code) => {
                if code == 0 {
                    return Verdict::Continue;
                }
                match self.policy {
                    Policy::Ignore => Verdict::Continue,
                    Policy::Report => {
                        let mut text = chars_of(quoted(self.command.as_str()).as_str());
                        append_str(&mut text, " failed with ");
                        append_chars(&mut text, &signed_decimal_text(code as i64));
                        Verdict::Fail(Error::ShellCommandError(text_of(&text)))
                    },
                    Policy::Terminate => Verdict::Exit(1),
                }
            },
        }
    }
}

impl Craft {
    /// Of the written paths, those that the formatter is run on.
    pub fn rustfmt_paths(&self, written: &Vec<String>) -> (r: Vec<String>)
        ensures
            r.deep_view() == paths_to_format(written.deep_view()),
    {
        let mut out: Vec<String> = Vec::new();
        let ghost all = written.deep_view();
        let mut i: usize = 0;
        proof {
            assert(out.deep_view() =~= paths_to_format(all.take(0)));
        }
        while i < written.len()
            invariant
                i <= written.len(),
                all == written.deep_view(),
                out.deep_view() == paths_to_format(all.take(i as int)),
            decreases written.len() - i,
        {
            proof {
                assert(all.take(i + 1).drop_last() =~= all.take(i as int));
                assert(all.take(i + 1).last() == written@[i as int]@);
            }
            let wanted = match path_extension(written[i].as_str()) {
                Some(e) => ends(&chars_of(e.as_str()), "rs"),
                None => false,
            };
            if wanted {
                push_text(&mut out, copy_text(written[i].as_str()));
            }
            i = i + 1;
        }
        proof {
            assert(all.take(written.len() as int) =~= all);
        }
        out
    }

    /// The options that every verification stage is called with.
    fn stage_flags(&self) -> (r: Vec<String>)
        ensures
            r.deep_view() == cargo_flags(*self),
    {
        let mut flags: Vec<String> = Vec::new();
        proof {
            assert(flags.deep_view() =~= Seq::<Seq<char>>::empty());
        }
        if self.offline {
            push_text(&mut flags, copy_text("--offline"));
        }
        if self.quiet_add || self.silent {
            push_text(&mut flags, copy_text("--quiet"));
        }
        proof {
            assert(flags.deep_view() =~= cargo_flags(*self));
        }
        flags
    }

    /// The command line of a verification stage.
    pub fn cargo_command(&self, stage: &str) -> (r: String)
        ensures
            r@ == cargo_command(*self, stage@),
    {
        let mut out = chars_of("cargo ");
        append_str(&mut out, stage);
        append_str(&mut out, " ");
        let flags = self.stage_flags();
        append_str(&mut out, join_texts(&flags, " ").as_str());
        text_of(&out)
    }

    /// What the exit code of a verification stage means: success lets the
    /// run go on; a failure of `check` is reported as a `ShellCommandError`;
    /// a failure of any other stage ends the process with code 1.
    pub fn call_cargo_subcommand(&self, stage: &str, exit_code: i32) -> (r: Verdict)
        ensures
            r@ == verdict_of(
                StepView {
                    command: cargo_command(*self, stage@),
                    place: Place::Project,
                    policy: stage_policy(stage@),
                },
                Ok(exit_code as int),
            ),
    {
        let policy = if crate::text::reads_as(&chars_of(stage), "check") {
            Policy::Report
        } else {
            Policy::Terminate
        };
        let step = Step { command: self.cargo_command(stage), place: Place::Project, policy };
        step.verdict(Ok(exit_code))
    }

    /// The command line that adds one dependency.
    pub fn cargo_add(&self, dep: &str) -> (r: String)
        ensures
            r@ == add_command(*self, dep@),
    {
        let mut opts: Vec<String> = Vec::new();
        proof {
            assert(opts.deep_view() =~= Seq::<Seq<char>>::empty());
        }
        if self.quiet_add {
            push_text(&mut opts, copy_text("-q"));
        }
        if self.offline {
            push_text(&mut opts, copy_text("--offline"));
        }
        proof {
            assert(opts.deep_view() =~= add_flags(*self));
        }
        push_text(&mut opts, copy_text(dep));
        let mut out = chars_of("cargo add ");
        append_str(&mut out, join_texts(&opts, " ").as_str());
        text_of(&out)
    }

    /// The command lines that add the dependencies. It fails exactly when a
    /// dependency cannot be read, with that fault as a `ParseError`.
    pub fn cargo_add_dependencies(&self) -> (r: Result<Vec<String>, Error>)
        ensures
            match r {
                Ok(commands) => deps_of(self.dep.deep_view()) is Ok && commands.deep_view()
                    == add_commands(*self, deps_of(self.dep.deep_view())->Ok_0),
                Err(e) => deps_of(self.dep.deep_view()) is Err && e is ParseError && e.message()
                    == fault_message(deps_of(self.dep.deep_view())->Err_0),
            },
    {
        let deps = match self.deps() {
            Ok(ds) => ds,
            Err(e) => {
                return Err(e);
            },
        };
        let ghost views = dependency_views(deps@);
        let ghost wanted = add_commands(*self, views);
        let ghost fragments = views.map_values(|d: DependencyView| command_fragment(d));
        let mut out: Vec<String> = Vec::new();
        proof {
            assert(out.deep_view() =~= Seq::<Seq<char>>::empty());
        }
        if self.is_cli() {
            push_text(&mut out, self.cargo_add("clap -F derive,env,string,unicode,wrap_help"));
        }
        push_text(&mut out, self.cargo_add("iocore"));
        push_text(&mut out, self.cargo_add("serde -F derive"));
        let ghost base = baseline(*self);
        proof {
            assert(out.deep_view() =~= base.map_values(|d: Seq<char>| add_command(*self, d)));
        }
        let mut i: usize = 0;
        while i < deps.len()
            invariant
                i <= deps.len(),
                views == dependency_views(deps@),
                fragments == views.map_values(|d: DependencyView| command_fragment(d)),
                base == baseline(*self),
                out.deep_view() == (base + fragments.take(i as int)).map_values(
                    |d: Seq<char>| add_command(*self, d),
                ),
            decreases deps.len() - i,
        {
            let fragment = deps[i].to_string();
            push_text(&mut out, self.cargo_add(fragment.as_str()));
            proof {
                assert(views[i as int] == deps@[i as int]@);
                assert(base + fragments.take(i + 1) =~= (base + fragments.take(i as int)).push(
                    fragments[i as int],
                ));
                assert((base + fragments.take(i + 1)).map_values(
                    |d: Seq<char>| add_command(*self, d),
                ) =~= (base + fragments.take(i as int)).map_values(
                    |d: Seq<char>| add_command(*self, d),
                ).push(add_command(*self, fragments[i as int])));
            }
            i = i + 1;
        }
        proof {
            assert(fragments.take(deps.len() as int) =~= fragments);
        }
        Ok(out)
    }

    /// The command lines of version control.
    pub fn run_git_ops(&self) -> (r: Vec<String>)
        ensures
            r.deep_view() == git_commands(),
    {
        let mut out: Vec<String> = Vec::new();
        push_text(&mut out, copy_text("git init"));
        push_text(&mut out, copy_text("git add ."));
        proof {
            assert(out.deep_view() =~= git_commands());
        }
        out
    }

    /// The outside commands of a run, in order. `to_format` holds the paths
    /// to format as the formatter is to be given them. It fails exactly when
    /// a dependency cannot be read.
    pub fn commands(&self, to_format: &Vec<String>, with_doc: bool) -> (r: Result<Vec<Step>, Error>)
        ensures
            match r {
                Ok(steps) => deps_of(self.dep.deep_view()) is Ok && step_views(steps@) == steps_of(
                    *self,
                    deps_of(self.dep.deep_view())->Ok_0,
                    to_format.deep_view(),
                    with_doc,
                ),
                Err(e) => deps_of(self.dep.deep_view()) is Err && e is ParseError && e.message()
                    == fault_message(deps_of(self.dep.deep_view())->Err_0),
            },
    {
        let adds = match self.cargo_add_dependencies() {
            Ok(a) => a,
            Err(e) => {
                return Err(e);
            },
        };
        let ghost deps = deps_of(self.dep.deep_view())->Ok_0;
        let ghost paths = to_format.deep_view();
        let ghost part_format = paths.map_values(
            |p: Seq<char>|
                StepView {
                    command: format_command(p),
                    place: Place::WorkingDirectory,
                    policy: Policy::Ignore,
                },
        );
        let ghost part_add = add_commands(*self, deps).map_values(
            |a: Seq<char>| StepView { command: a, place: Place::Project, policy: Policy::Ignore },
        );
        let ghost part_stage = stages(with_doc).map_values(
            |s: Seq<char>|
                StepView {
                    command: cargo_command(*self, s),
                    place: Place::Project,
                    policy: stage_policy(s),
                },
        );
        let ghost part_git = git_commands().map_values(
            |g: Seq<char>| StepView { command: g, place: Place::Project, policy: Policy::Ignore },
        );
        let mut steps: Vec<Step> = Vec::new();
        proof {
            assert(step_views(steps@) =~= part_format.take(0));
        }
        let mut i: usize = 0;
        while i < to_format.len()
            invariant
                i <= to_format.len(),
                paths == to_format.deep_view(),
                part_format == paths.map_values(
                    |p: Seq<char>|
                        StepView {
                            command: format_command(p),
                            place: Place::WorkingDirectory,
                            policy: Policy::Ignore,
                        },
                ),
                step_views(steps@) == part_format.take(i as int),
            decreases to_format.len() - i,
        {
            let mut command = chars_of("rustfmt ");
            append_str(&mut command, to_format[i].as_str());
            let step = Step {
                command: text_of(&command),
                place: Place::WorkingDirectory,
                policy: Policy::Ignore,
            };
            proof {
                assert(paths[i as int] == to_format@[i as int]@);
                assert(part_format.take(i + 1) =~= part_format.take(i as int).push(
                    part_format[i as int],
                ));
            }
            push_step(&mut steps, step);
            i = i + 1;
        }
        proof {
            assert(part_format.take(to_format.len() as int) =~= part_format);
            assert(part_format + part_add.take(0) =~= part_format);
        }
        let mut j: usize = 0;
        while j < adds.len()
            invariant
                j <= adds.len(),
                adds.deep_view() == add_commands(*self, deps),
                part_add == add_commands(*self, deps).map_values(
                    |a: Seq<char>|
                        StepView { command: a, place: Place::Project, policy: Policy::Ignore },
                ),
                step_views(steps@) == part_format + part_add.take(j as int),
            decreases adds.len() - j,
        {
            let step = Step {
                command: copy_text(adds[j].as_str()),
                place: Place::Project,
                policy: Policy::Ignore,
            };
            proof {
                assert(adds.deep_view()[j as int] == adds@[j as int]@);
                assert(part_format + part_add.take(j + 1) =~= (part_format + part_add.take(
                    j as int,
                )).push(part_add[j as int]));
            }
            push_step(&mut steps, step);
            j = j + 1;
        }
        proof {
            assert(part_add.take(adds.len() as int) =~= part_add);
        }
        let check = self.stage_step("check");
        let build = self.stage_step("build");
        let test = self.stage_step("test");
        push_step(&mut steps, check);
        push_step(&mut steps, build);
        push_step(&mut steps, test);
        if with_doc {
            let doc = self.stage_step("doc");
            push_step(&mut steps, doc);
        }
        proof {
            assert(step_views(steps@) =~= part_format + part_add + part_stage);
        }
        let gits = self.run_git_ops();
        let mut k: usize = 0;
        proof {
            assert(part_format + part_add + part_stage + part_git.take(0) =~= part_format
                + part_add + part_stage);
        }
        while k < gits.len()
            invariant
                k <= gits.len(),
                gits.deep_view() == git_commands(),
                part_git == git_commands().map_values(
                    |g: Seq<char>|
                        StepView { command: g, place: Place::Project, policy: Policy::Ignore },
                ),
                step_views(steps@) == part_format + part_add + part_stage + part_git.take(
                    k as int,
                ),
            decreases gits.len() - k,
        {
            let step = Step {
                command: copy_text(gits[k].as_str()),
                place: Place::Project,
                policy: Policy::Ignore,
            };
            proof {
                assert(gits.deep_view()[k as int] == gits@[k as int]@);
                assert(part_format + part_add + part_stage + part_git.take(k + 1) =~= (part_format
                    + part_add + part_stage + part_git.take(k as int)).push(part_git[k as int]));
            }
            push_step(&mut steps, step);
            k = k + 1;
        }
        proof {
            assert(part_git.take(gits.len() as int) =~= part_git);
        }
        Ok(steps)
    }

    /// The step of one verification stage.
    fn stage_step(&self, stage: &str) -> (r: Step)
        ensures
            r@ == (StepView {
                command: cargo_command(*self, stage@),
                place: Place::Project,
                policy: stage_policy(stage@),
            }),
    {
        let policy = if crate::text::reads_as(&chars_of(stage), "check") {
            Policy::Report
        } else {
            Policy::Terminate
        };
        Step { command: self.cargo_command(stage), place: Place::Project, policy }
    }
}

/// Where a run stands.
#[derive(Debug, Clone, Copy, PartialEq, Eq, Structural)]
pub enum Phase {
    /// Finding out whether the project directory is there.
    Probe,
    /// Deleting a project directory that is in the way.
    Delete,
    /// Validating the target.
    Validate,
    /// Rendering and writing the manifest.
    Manifest,
    /// Rendering and writing the planned templates.
    Templates,
    /// Running the outside command of this position.
    Steps(usize),
    /// Appending the receipt, of a run that went through or of one that
    /// failed.
    Receipt,
    /// Printing the crate's name.
    Name,
    /// Deleting the project directory after a failure.
    Rollback,
    /// Nothing is left to do.
    Over,
}

/// What the outside is asked to do next.
#[derive(Debug, Clone, Copy, PartialEq, Eq, Structural)]
pub enum Action {
    /// Find out whether the project directory exists.
    ProbeTarget,
    /// Delete the project directory.
    DeleteTarget,
    /// Validate the target as the path of a new manifest.
    ValidateTarget,
    /// Render the manifest and write it.
    WriteManifest,
    /// Render the planned templates and write them.
    WriteTemplates,
    /// Run the step of this position.
    RunStep(usize),
    /// Append the receipt, with the run's failure where it has one.
    WriteReceipt,
    /// Print the crate's name.
    PrintName,
    /// Delete the project directory, to undo the run.
    RollBack,
    /// Stop: the run is over.
    Finish,
    /// End the process with this code.
    Exit(i32),
}

/// What the outside reports back.
#[derive(Debug, Clone, PartialEq, Eq)]
pub enum Event {
    /// Whether the project directory exists.
    Probed(bool),
    /// What was asked for is done.
    Done,
    /// The templates are written: the paths of the files, as the formatter
    /// is to be given them.
    Written(Vec<String>),
    /// The command ran and ended with this code.
    Exited(i32),
    /// What was asked for failed.
    Failed(Error),
}

/// What an event holds.
pub enum EventView {
    Probed(bool),
    Done,
    Written(Seq<Seq<char>>),
    Exited(int),
    Failed(ErrorView),
}

impl View for Event {
    type V = EventView;

    open spec fn view(&self) -> EventView {
        match self {
            Event::Probed(b) => EventView::Probed(*b),
            Event::Done => EventView::Done,
            Event::Written(paths) => EventView::Written(paths.deep_view()),
            Event::Exited(c) => EventView::Exited(*c as int),
            Event::Failed(e) => EventView::Failed(e@),
        }
    }
}

/// A run in progress.
#[derive(Debug, Clone)]
pub struct Run {
    /// Where the run stands.
    pub phase: Phase,
    /// Whether the project directory was there when the run began.
    pub existed: bool,
    /// Whether the run has begun to write the project.
    pub began: bool,
    /// Whether the documentation is generated as a last stage.
    pub with_doc: bool,
    /// The outside commands, once they are known.
    pub steps: Vec<Step>,
    /// The error that the run failed with, if it has.
    pub failure: Option<Error>,
    /// The failure is to leave the entry point as an error.
    pub fatal: bool,
}

/// What a run in progress holds.
pub struct RunView {
    pub phase: Phase,
    pub existed: bool,
    pub began: bool,
    pub with_doc: bool,
    pub steps: Seq<StepView>,
    pub failure: Option<ErrorView>,
    pub fatal: bool,
}

impl View for Run {
    type V = RunView;

    open spec fn view(&self) -> RunView {
        RunView {
            phase: self.phase,
            existed: self.existed,
            began: self.began,
            with_doc: self.with_doc,
            steps: step_views(self.steps@),
            failure: match self.failure {
                Some(e) => Some(e@),
                None => None,
            },
            fatal: self.fatal,
        }
    }
}

/// A run that fails with `e`: it holds the error, and its receipt is
/// appended next.
pub open spec fn failed(run: RunView, c: Craft, e: ErrorView) -> (RunView, Action) {
    (RunView { phase: Phase::Receipt, failure: Some(e), ..run }, Action::WriteReceipt)
}

/// Whether a failed run is undone: rollback is asked for, the project
/// directory was not there before, and the run has begun to write it.
pub open spec fn undone(run: RunView, c: Craft) -> bool {
    run.failure is Some && c.rollback && !run.existed && run.began
}

/// What follows the receipt. A run that went through prints the crate's
/// name where that is asked for, and is over. A run that failed is undone
/// where it is to be, and is over otherwise.
pub open spec fn after_receipt(run: RunView, c: Craft) -> (RunView, Action) {
    if run.failure is None {
        if c.script {
            (RunView { phase: Phase::Name, ..run }, Action::PrintName)
        } else {
            (RunView { phase: Phase::Over, ..run }, Action::Finish)
        }
    } else if undone(run, c) {
        (RunView { phase: Phase::Rollback, ..run }, Action::RollBack)
    } else {
        (RunView { phase: Phase::Over, ..run }, Action::Finish)
    }
}

/// The error for an event that the phase has no use for.
pub open spec fn out_of_turn() -> ErrorView {
    ErrorView { kind: "RuntimeError"@, message: "unexpected event"@ }
}

/// The run after an event, and what to do next.
pub open spec fn advanced(run: RunView, c: Craft, event: EventView) -> (RunView, Action) {
    match (run.phase, event) {
        (Phase::Over, _) => (run, Action::Finish),
        (Phase::Receipt, _) => after_receipt(run, c),
        (Phase::Name, _) => (RunView { phase: Phase::Over, ..run }, Action::Finish),
        (Phase::Rollback, EventView::Failed(e)) => (
            RunView { phase: Phase::Over, failure: Some(e), fatal: true, ..run },
            Action::Finish,
        ),
        (Phase::Rollback, _) => (RunView { phase: Phase::Over, ..run }, Action::Finish),
        (Phase::Probe, EventView::Probed(exists)) => match config_fault(c) {
            Some(e) => failed(RunView { existed: exists, ..run }, c, e),
            None => if exists && c.force {
                (RunView { phase: Phase::Delete, existed: true, ..run }, Action::DeleteTarget)
            } else {
                (
                    RunView { phase: Phase::Validate, existed: exists, ..run },
                    Action::ValidateTarget,
                )
            },
        },
        (Phase::Delete, EventView::Done) => (
            RunView { phase: Phase::Manifest, began: true, ..run },
            Action::WriteManifest,
        ),
        (Phase::Validate, EventView::Done) => (
            RunView { phase: Phase::Manifest, began: true, ..run },
            Action::WriteManifest,
        ),
        (Phase::Validate, EventView::Failed(e)) => (
            RunView { phase: Phase::Over, failure: Some(e), ..run },
            Action::Exit(2),
        ),
        (Phase::Manifest, EventView::Done) => (
            RunView { phase: Phase::Templates, ..run },
            Action::WriteTemplates,
        ),
        (Phase::Templates, EventView::Written(paths)) => match deps_of(c.dep.deep_view()) {
            Ok(deps) => (
                RunView {
                    phase: Phase::Steps(0),
                    steps: steps_of(c, deps, paths_to_format(paths), run.with_doc),
                    ..run
                },
                Action::RunStep(0),
            ),
            Err(f) => failed(
                run,
                c,
                ErrorView { kind: "ParseError"@, message: fault_message(f) },
            ),
        },
        (Phase::Steps(i), EventView::Exited(code)) => if i < run.steps.len() {
            match verdict_of(run.steps[i as int], Ok(code)) {
                VerdictView::Continue => if i + 1 < run.steps.len() {
                    (
                        RunView { phase: Phase::Steps((i + 1) as usize), ..run },
                        Action::RunStep((i + 1) as usize),
                    )
                } else {
                    (RunView { phase: Phase::Receipt, ..run }, Action::WriteReceipt)
                },
                VerdictView::Fail(e) => failed(run, c, e),
                VerdictView::Exit(code) => (
                    RunView { phase: Phase::Over, ..run },
                    Action::Exit(code as i32),
                ),
            }
        } else {
            failed(run, c, out_of_turn())
        },
        (_, EventView::Failed(e)) => failed(run, c, e),
        (_, _) => failed(run, c, out_of_turn()),
    }
}

/// The action that changes the project directory or runs a command in it:
/// a deletion, a write, a step.
pub open spec fn touches_project(a: Action) -> bool {
    a is DeleteTarget || a is WriteManifest || a is WriteTemplates || a is RunStep || a is RollBack
}

/// The action that writes the project or runs a command in it.
pub open spec fn writes_project(a: Action) -> bool {
    a is WriteManifest || a is WriteTemplates || a is RunStep
}

/// The run after a course of events.
pub open spec fn run_after(run: RunView, c: Craft, events: Seq<EventView>) -> RunView
    decreases events.len(),
{
    if events.len() == 0 {
        run
    } else {
        run_after(advanced(run, c, events[0]).0, c, events.drop_first())
    }
}

/// What is asked for in answer to the event of position `k` in a course of
/// events.
pub open spec fn asked(run: RunView, c: Craft, events: Seq<EventView>, k: int) -> Action
    decreases events.len(),
{
    if k <= 0 || events.len() <= 1 {
        advanced(run, c, events[0]).1
    } else {
        asked(advanced(run, c, events[0]).0, c, events.drop_first(), k - 1)
    }
}

/// A run that will not touch the project any more: it is at its receipt or
/// behind it, and is not to be undone.
pub open spec fn settled(run: RunView, c: Craft) -> bool {
    (run.phase == Phase::Receipt || run.phase == Phase::Name || run.phase == Phase::Over)
        && !undone(run, c)
}

impl Run {
    /// A run at its start, and the first thing to do: find out whether the
    /// project directory is there.
    pub fn start(with_doc: bool) -> (r: (Run, Action))
        ensures
            r.0@ == (RunView {
                phase: Phase::Probe,
                existed: false,
                began: false,
                with_doc,
                steps: Seq::empty(),
                failure: None,
                fatal: false,
            }),
            r.1 == Action::ProbeTarget,
    {
        let run = Run {
            phase: Phase::Probe,
            existed: false,
            began: false,
            with_doc,
            steps: Vec::new(),
            failure: None,
            fatal: false,
        };
        proof {
            assert(step_views(run.steps@) =~= Seq::<StepView>::empty());
        }
        (run, Action::ProbeTarget)
    }

    /// Fails the run with `e`.
    fn fail(self, c: &Craft, e: Error) -> (r: (Run, Action))
        ensures
            (r.0@, r.1) == failed(self@, *c, e@),
            r.0.failure == Some(e),
    {
        let mut run = self;
        run.failure = Some(e);
        run.phase = Phase::Receipt;
        (run, Action::WriteReceipt)
    }

    /// Goes on behind the receipt.
    fn close(self, c: &Craft) -> (r: (Run, Action))
        ensures
            (r.0@, r.1) == after_receipt(self@, *c),
    {
        let mut run = self;
        if run.failure.is_none() {
            if c.script {
                run.phase = Phase::Name;
                (run, Action::PrintName)
            } else {
                run.phase = Phase::Over;
                (run, Action::Finish)
            }
        } else if c.rollback && !run.existed && run.began {
            run.phase = Phase::Rollback;
            (run, Action::RollBack)
        } else {
            run.phase = Phase::Over;
            (run, Action::Finish)
        }
    }

    /// Takes in what happened, and answers with the run as it stands now and
    /// with what to do next.
    pub fn advance(self, c: &Craft, event: Event) -> (r: (Run, Action))
        ensures
            (r.0@, r.1) == advanced(self@, *c, event@),
    {
        let mut run = self;
        match run.phase {
            Phase::Over => (run, Action::Finish),
            Phase::Receipt => run.close(c),
            Phase::Name => {
                run.phase = Phase::Over;
                (run, Action::Finish)
            },
            Phase::Rollback => match event {
                Event::Failed(e) => {
                    run.phase = Phase::Over;
                    run.failure = Some(e);
                    run.fatal = true;
                    (run, Action::Finish)
                },
                _ => {
                    run.phase = Phase::Over;
                    (run, Action::Finish)
                },
            },
            Phase::Probe => match event {
                Event::Probed(exists) => {
                    run.existed = exists;
                    match c.validate() {
                        Ok(_) => {},
                        Err(e) => {
                            return run.fail(c, e);
                        },
                    }
                    if exists && c.force {
                        run.phase = Phase::Delete;
                        (run, Action::DeleteTarget)
                    } else {
                        run.phase = Phase::Validate;
                        (run, Action::ValidateTarget)
                    }
                },
                Event::Failed(e) => run.fail(c, e),
                _ => run.fail(c, Error::RuntimeError(copy_text("unexpected event"))),
            },
            Phase::Delete => match event {
                Event::Done => {
                    run.phase = Phase::Manifest;
                    run.began = true;
                    (run, Action::WriteManifest)
                },
                Event::Failed(e) => run.fail(c, e),
                _ => run.fail(c, Error::RuntimeError(copy_text("unexpected event"))),
            },
            Phase::Validate => match event {
                Event::Done => {
                    run.phase = Phase::Manifest;
                    run.began = true;
                    (run, Action::WriteManifest)
                },
                Event::Failed(e) => {
                    run.phase = Phase::Over;
                    run.failure = Some(e);
                    (run, Action::Exit(2))
                },
                _ => run.fail(c, Error::RuntimeError(copy_text("unexpected event"))),
            },
            Phase::Manifest => match event {
                Event::Done => {
                    run.phase = Phase::Templates;
                    (run, Action::WriteTemplates)
                },
                Event::Failed(e) => run.fail(c, e),
                _ => run.fail(c, Error::RuntimeError(copy_text("unexpected event"))),
            },
            Phase::Templates => match event {
                Event::Written(paths) => {
                    let to_format = c.rustfmt_paths(&paths);
                    match c.commands(&to_format, run.with_doc) {
                        Ok(steps) => {
                            run.steps = steps;
                            run.phase = Phase::Steps(0);
                            (run, Action::RunStep(0))
                        },
                        Err(e) => run.fail(c, e),
                    }
                },
                Event::Failed(e) => run.fail(c, e),
                _ => run.fail(c, Error::RuntimeError(copy_text("unexpected event"))),
            },
            Phase::Steps(i) => match event {
                Event::Exited(code) => {
                    if i < run.steps.len() {
                        proof {
                            assert(step_views(run.steps@)[i as int] == run.steps@[i as int]@);
                        }
                        match run.steps[i].verdict(Ok(code)) {
                            Verdict::Continue => {
                                if i + 1 < run.steps.len() {
                                    run.phase = Phase::Steps(i + 1);
                                    (run, Action::RunStep(i + 1))
                                } else {
                                    run.phase = Phase::Receipt;
                                    (run, Action::WriteReceipt)
                                }
                            },
                            Verdict::Fail(e) => run.fail(c, e),
                            Verdict::Exit(code) => {
                                run.phase = Phase::Over;
                                (run, Action::Exit(code))
                            },
                        }
                    } else {
                        run.fail(c, Error::RuntimeError(copy_text("unexpected event")))
                    }
                },
                Event::Failed(e) => run.fail(c, e),
                _ => run.fail(c, Error::RuntimeError(copy_text("unexpected event"))),
            },
        }
    }
}

/// Law: a failed run has its receipt. Whatever fails while the project is
/// being written or a command is being started ends the work there: the run
/// holds that error, and the receipt is appended next. Behind the receipt
/// the run is undone where it is to be, and is over otherwise.
pub proof fn lemma_failure_leads_to_the_receipt(
    run: RunView,
    c: Craft,
    e: ErrorView,
    reply: EventView,
)
    requires
        run.phase == Phase::Delete || run.phase == Phase::Manifest || run.phase
            == Phase::Templates || run.phase is Steps,
    ensures
        ({
            let next = advanced(run, c, EventView::Failed(e));
            let last = advanced(next.0, c, reply);
            &&& next.1 == Action::WriteReceipt
            &&& next.0.failure == Some(e)
            &&& last.0.failure == Some(e)
            &&& last.1 == (if c.rollback && !run.existed && run.began {
                Action::RollBack
            } else {
                Action::Finish
            })
        }),
{
}

/// Law: the commands run in their order, one after the other. After the
/// success of one the next is asked for, and after the last the receipt.
pub proof fn lemma_steps_run_in_order(run: RunView, c: Craft, i: usize)
    requires
        run.phase == Phase::Steps(i),
        i < run.steps.len(),
    ensures
        advanced(run, c, EventView::Exited(0)).1 == (if i + 1 < run.steps.len() {
            Action::RunStep((i + 1) as usize)
        } else {
            Action::WriteReceipt
        }),
{
}

/// Law: a failed verification stage ends the run or the process. The first
/// stage is reported: the run fails with a `ShellCommandError`, and its
/// receipt is appended. Any later stage ends the process with code 1.
pub proof fn lemma_stage_failure(run: RunView, c: Craft, i: usize, code: int)
    requires
        run.phase == Phase::Steps(i),
        i < run.steps.len(),
        code != 0,
        run.steps[i as int].policy != Policy::Ignore,
    ensures
        ({
            let next = advanced(run, c, EventView::Exited(code));
            if run.steps[i as int].policy == Policy::Report {
                next.1 == Action::WriteReceipt && next.0.failure is Some
                    && next.0.failure->0.kind == "ShellCommandError"@
            } else {
                next.1 == Action::Exit(1) && next.0.phase == Phase::Over
            }
        }),
{
}

/// Law: a receipt that cannot be written does not fail the run, nor change
/// how it ends.
pub proof fn lemma_receipt_failure_is_not_fatal(run: RunView, c: Craft, e: ErrorView)
    requires
        run.phase == Phase::Receipt,
    ensures
        advanced(run, c, EventView::Failed(e)) == advanced(run, c, EventView::Done),
        advanced(run, c, EventView::Failed(e)).0.failure == run.failure,
        !advanced(run, c, EventView::Failed(e)).0.fatal || run.fatal,
{
}

/// Law: a configuration that does not pass validation is refused before
/// anything is asked of the project: the run holds that fault, its receipt
/// is appended, and it is over. Nothing is deleted, rendered, written or
/// run.
pub proof fn lemma_invalid_configuration_stops_at_once(
    run: RunView,
    c: Craft,
    exists: bool,
    reply: EventView,
)
    requires
        run.phase == Phase::Probe,
        !run.began,
        config_fault(c) is Some,
    ensures
        ({
            let next = advanced(run, c, EventView::Probed(exists));
            let last = advanced(next.0, c, reply);
            &&& next.1 == Action::WriteReceipt
            &&& next.0.failure == config_fault(c)
            &&& last.1 == Action::Finish
            &&& last.0.phase == Phase::Over
            &&& last.0.failure == config_fault(c)
        }),
{
}

/// A settled run stays settled, and what it asks for does not touch the
/// project.
proof fn lemma_settled_step(run: RunView, c: Craft, event: EventView)
    requires
        settled(run, c),
    ensures
        settled(advanced(run, c, event).0, c),
        !touches_project(advanced(run, c, event).1),
{
}

/// Whatever comes, a settled run does not touch the project any more.
proof fn lemma_settled(run: RunView, c: Craft, events: Seq<EventView>, k: int)
    requires
        settled(run, c),
        0 <= k < events.len(),
    ensures
        !touches_project(asked(run, c, events, k)),
    decreases events.len(),
{
    lemma_settled_step(run, c, events[0]);
    if k > 0 && events.len() > 1 {
        lemma_settled(advanced(run, c, events[0]).0, c, events.drop_first(), k - 1);
    }
}

/// Law: a project that is in the way is left alone. Where the project
/// directory is there and its replacement is not asked for, nothing is ever
/// deleted, written or run, whatever comes, unless the configuration is
/// valid and the target has passed validation. A target that is refused
/// ends the process with code 2, and the run holds the refusal.
pub proof fn lemma_target_in_the_way_is_left_alone(
    run: RunView,
    c: Craft,
    events: Seq<EventView>,
    k: int,
)
    requires
        run.phase == Phase::Probe,
        !run.began,
        !c.force,
        0 <= k < events.len(),
        events[0] == EventView::Probed(true),
    ensures
        touches_project(asked(run, c, events, k)) ==> config_fault(c) is None && events.len() > 1
            && events[1] is Done,
        config_fault(c) is None && events.len() > 1 && events[1] is Failed ==> asked(
            run,
            c,
            events,
            1,
        ) == Action::Exit(2) && run_after(run, c, events.take(2)).failure == Some(
            events[1]->Failed_0,
        ),
{
    let first = advanced(run, c, events[0]);
    let rest = events.drop_first();
    if config_fault(c) is Some {
        assert(settled(first.0, c));
        if k > 0 && events.len() > 1 {
            lemma_settled(first.0, c, rest, k - 1);
        }
    } else if events.len() > 1 {
        assert(rest[0] == events[1]);
        let second = advanced(first.0, c, rest[0]);
        assert(asked(run, c, events, 1) == second.1) by {
            reveal_with_fuel(asked, 3);
        }
        if !(events[1] is Done) {
            assert(settled(second.0, c));
            if k == 1 {
                assert(asked(run, c, events, k) == second.1);
            } else if k > 1 {
                assert(asked(run, c, events, k) == asked(second.0, c, rest.drop_first(), k - 2))
                    by {
                    reveal_with_fuel(asked, 3);
                }
                if rest.len() > 1 {
                    lemma_settled(second.0, c, rest.drop_first(), k - 2);
                }
            }
        }
        if events[1] is Failed {
            let two = events.take(2);
            assert(two[0] == events[0]);
            assert(two.drop_first()[0] == events[1]);
            assert(two.drop_first().drop_first().len() == 0);
            assert(run_after(run, c, two) == second.0) by {
                reveal_with_fuel(run_after, 4);
            }
        }
    }
}

/// Law: a project that is replaced is deleted first. Where the project
/// directory is there and its replacement is asked for, the deletion is
/// the first thing asked of the project, and nothing is written or run,
/// whatever comes, unless the configuration is valid and the deletion is
/// done. An invalid configuration has nothing deleted.
pub proof fn lemma_replaced_target_is_deleted_first(
    run: RunView,
    c: Craft,
    events: Seq<EventView>,
    k: int,
)
    requires
        run.phase == Phase::Probe,
        !run.began,
        c.force,
        0 <= k < events.len(),
        events[0] == EventView::Probed(true),
    ensures
        touches_project(asked(run, c, events, k)) ==> config_fault(c) is None && asked(
            run,
            c,
            events,
            0,
        ) == Action::DeleteTarget,
        writes_project(asked(run, c, events, k)) ==> k >= 1 && events[1] is Done,
{
    let first = advanced(run, c, events[0]);
    let rest = events.drop_first();
    if config_fault(c) is Some {
        assert(settled(first.0, c));
        if k > 0 && events.len() > 1 {
            lemma_settled(first.0, c, rest, k - 1);
        }
    } else if events.len() > 1 && k >= 1 {
        assert(rest[0] == events[1]);
        let second = advanced(first.0, c, rest[0]);
        if !(events[1] is Done) {
            assert(settled(second.0, c));
            if k == 1 {
                assert(asked(run, c, events, k) == second.1) by {
                    reveal_with_fuel(asked, 3);
                }
            } else {
                assert(asked(run, c, events, k) == asked(second.0, c, rest.drop_first(), k - 2))
                    by {
                    reveal_with_fuel(asked, 3);
                }
                if rest.len() > 1 {
                    lemma_settled(second.0, c, rest.drop_first(), k - 2);
                }
            }
        }
    }
}

} // verus!
