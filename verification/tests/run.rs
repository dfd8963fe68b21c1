use cargo_craft::helpers::{manifest_path_of, manifest_path_verdict, manifest_target};
use cargo_craft::orchestrator::{Action, Event, Phase, Place, Policy, Run, Step, Verdict};
use cargo_craft::{Craft, Error, ExecutionResult};

fn craft_at(at: &str) -> Craft {
    Craft {
        at: at.to_string(),
        package_name: None,
        version: "0.0.1".to_string(),
        dep: Vec::new(),
        cli: false,
        main: false,
        bin: Vec::new(),
        lib_path: None,
        bin_path: ".".to_string(),
        value_enum: false,
        subcommands: false,
        cli_barebones: false,
        verbose: false,
        quiet_add: false,
        offline: false,
        rollback: false,
        default_bin_name: "{{ crate_name }}".to_string(),
        add_error_type: Vec::new(),
        force: false,
        silent: false,
        started_at: "2024-01-01T00:00:00+00:00".to_string(),
        finished_at: None,
        runtime_errors: Vec::new(),
        description: None,
        script: false,
        subcommand_names: Vec::new(),
    }
}

fn commands_of(steps: &[Step]) -> Vec<String> {
    steps.iter().map(|s| s.command.clone()).collect()
}

#[test]
fn cargo_commands_carry_the_flags() {
    let mut craft = craft_at("proj");
    assert_eq!(craft.cargo_command("check"), "cargo check ");
    craft.offline = true;
    assert_eq!(craft.cargo_command("build"), "cargo build --offline");
    craft.silent = true;
    assert_eq!(craft.cargo_command("test"), "cargo test --offline --quiet");
    craft.offline = false;
    craft.silent = false;
    craft.quiet_add = true;
    assert_eq!(craft.cargo_command("doc"), "cargo doc --quiet");
}

#[test]
fn cargo_add_carries_the_options() {
    let mut craft = craft_at("proj");
    assert_eq!(craft.cargo_add("serde -F derive"), "cargo add serde -F derive");
    craft.quiet_add = true;
    assert_eq!(craft.cargo_add("iocore"), "cargo add -q iocore");
    craft.offline = true;
    assert_eq!(craft.cargo_add("iocore"), "cargo add -q --offline iocore");
}

#[test]
fn baseline_dependencies_come_first() {
    let mut craft = craft_at("proj");
    craft.dep = vec!["reqwest -Fblocking,deflate".to_string(), "k9 --dev".to_string()];
    assert_eq!(
        craft.cargo_add_dependencies(),
        Ok(vec![
            "cargo add iocore".to_string(),
            "cargo add serde -F derive".to_string(),
            "cargo add reqwest -Fblocking,deflate".to_string(),
            "cargo add k9 --dev".to_string(),
        ])
    );
    craft.cli = true;
    assert_eq!(
        craft.cargo_add_dependencies().unwrap()[0],
        "cargo add clap -F derive,env,string,unicode,wrap_help"
    );
    craft.dep = vec!["k9 --dev --build".to_string()];
    assert_eq!(craft.cargo_add_dependencies().unwrap_err().variant(), "ParseError");
}

#[test]
fn only_rust_sources_are_formatted() {
    let craft = craft_at("proj");
    let written = vec![
        "proj/src/lib.rs".to_string(),
        "proj/.gitignore".to_string(),
        "proj/README.md".to_string(),
        "proj/rust-toolchain.toml".to_string(),
        "proj/bins/tool.rs".to_string(),
        "proj/odd.ars".to_string(),
        "proj/rs".to_string(),
    ];
    assert_eq!(
        craft.rustfmt_paths(&written),
        vec!["proj/src/lib.rs", "proj/bins/tool.rs", "proj/odd.ars"]
    );
}

#[test]
fn git_commands() {
    assert_eq!(craft_at("proj").run_git_ops(), vec!["git init", "git add ."]);
}

#[test]
fn commands_of_a_run_in_order() {
    let mut craft = craft_at("proj");
    craft.dep = vec!["k9 --dev".to_string()];
    let steps = craft.commands(&vec!["a/lib.rs".to_string()], true).unwrap();
    assert_eq!(
        commands_of(&steps),
        vec![
            "rustfmt a/lib.rs",
            "cargo add iocore",
            "cargo add serde -F derive",
            "cargo add k9 --dev",
            "cargo check ",
            "cargo build ",
            "cargo test ",
            "cargo doc ",
            "git init",
            "git add .",
        ]
    );
    assert_eq!(steps[0].place, Place::WorkingDirectory);
    assert!(steps[1..].iter().all(|s| s.place == Place::Project));
    let policies: Vec<Policy> = steps.iter().map(|s| s.policy).collect();
    assert_eq!(
        policies,
        vec![
            Policy::Ignore,
            Policy::Ignore,
            Policy::Ignore,
            Policy::Ignore,
            Policy::Report,
            Policy::Terminate,
            Policy::Terminate,
            Policy::Terminate,
            Policy::Ignore,
            Policy::Ignore,
        ]
    );
    let without_doc = craft.commands(&Vec::new(), false).unwrap();
    assert_eq!(without_doc.len(), 8);
    assert!(!commands_of(&without_doc).contains(&"cargo doc ".to_string()));
}

#[test]
fn verdicts_follow_the_policy() {
    let step = |policy| Step { command: "cargo check ".to_string(), place: Place::Project, policy };
    for policy in [Policy::Ignore, Policy::Report, Policy::Terminate] {
        assert_eq!(step(policy).verdict(Ok(0)), Verdict::Continue);
        assert_eq!(
            step(policy).verdict(Err(Error::IOError("no such command".to_string()))),
            Verdict::Fail(Error::IOError("no such command".to_string()))
        );
    }
    assert_eq!(step(Policy::Ignore).verdict(Ok(3)), Verdict::Continue);
    assert_eq!(
        step(Policy::Report).verdict(Ok(101)),
        Verdict::Fail(Error::ShellCommandError("\"cargo check \" failed with 101".to_string()))
    );
    assert_eq!(
        step(Policy::Report).verdict(Ok(-9)),
        Verdict::Fail(Error::ShellCommandError("\"cargo check \" failed with -9".to_string()))
    );
    assert_eq!(
        step(Policy::Report).verdict(Ok(i32::MIN)),
        Verdict::Fail(Error::ShellCommandError(
            "\"cargo check \" failed with -2147483648".to_string()
        ))
    );
    assert_eq!(step(Policy::Terminate).verdict(Ok(2)), Verdict::Exit(1));
}

#[test]
fn check_is_reported_and_later_stages_end_the_process() {
    let craft = craft_at("proj");
    assert_eq!(craft.call_cargo_subcommand("check", 0), Verdict::Continue);
    assert_eq!(
        craft.call_cargo_subcommand("check", 1),
        Verdict::Fail(Error::ShellCommandError("\"cargo check \" failed with 1".to_string()))
    );
    for stage in ["build", "test", "doc"] {
        assert_eq!(craft.call_cargo_subcommand(stage, 0), Verdict::Continue);
        assert_eq!(craft.call_cargo_subcommand(stage, 1), Verdict::Exit(1));
    }
}

fn drive(craft: &Craft, events: Vec<Event>) -> (Run, Vec<Action>) {
    let (mut run, first) = Run::start(true);
    let mut actions = vec![first];
    for event in events {
        let (next, action) = run.advance(craft, event);
        run = next;
        actions.push(action);
    }
    (run, actions)
}

#[test]
fn a_run_that_goes_through() {
    let mut craft = craft_at("proj");
    craft.script = true;
    let mut events = vec![
        Event::Probed(false),
        Event::Done,
        Event::Done,
        Event::Written(vec!["proj/lib.rs".to_string(), "proj/README.md".to_string()]),
    ];
    for _ in 0..9 {
        events.push(Event::Exited(0));
    }
    events.push(Event::Done);
    events.push(Event::Done);
    let (run, actions) = drive(&craft, events);
    assert_eq!(
        actions,
        vec![
            Action::ProbeTarget,
            Action::ValidateTarget,
            Action::WriteManifest,
            Action::WriteTemplates,
            Action::RunStep(0),
            Action::RunStep(1),
            Action::RunStep(2),
            Action::RunStep(3),
            Action::RunStep(4),
            Action::RunStep(5),
            Action::RunStep(6),
            Action::RunStep(7),
            Action::RunStep(8),
            Action::WriteReceipt,
            Action::PrintName,
            Action::Finish,
        ]
    );
    assert_eq!(run.phase, Phase::Over);
    assert_eq!(run.failure, None);
    assert!(!run.fatal);
    assert!(!run.existed);
    assert_eq!(
        commands_of(&run.steps),
        vec![
            "rustfmt proj/lib.rs",
            "cargo add iocore",
            "cargo add serde -F derive",
            "cargo check ",
            "cargo build ",
            "cargo test ",
            "cargo doc ",
            "git init",
            "git add .",
        ]
    );
}

#[test]
fn an_existing_target_is_deleted_only_with_force() {
    let mut craft = craft_at("proj");
    let (run, actions) = drive(&craft, vec![Event::Probed(true), Event::Done]);
    assert_eq!(
        actions,
        vec![Action::ProbeTarget, Action::ValidateTarget, Action::WriteManifest]
    );
    assert!(run.existed);
    let refused = Error::ParseError("proj/Cargo.toml already exists".to_string());
    let (run, actions) =
        drive(&craft, vec![Event::Probed(true), Event::Failed(refused.clone())]);
    assert_eq!(actions, vec![Action::ProbeTarget, Action::ValidateTarget, Action::Exit(2)]);
    assert_eq!(run.failure, Some(refused));
    assert_eq!(run.phase, Phase::Over);
    craft.force = true;
    let (run, actions) = drive(&craft, vec![Event::Probed(true), Event::Done]);
    assert_eq!(
        actions,
        vec![Action::ProbeTarget, Action::DeleteTarget, Action::WriteManifest]
    );
    assert_eq!(run.phase, Phase::Manifest);
    let (_, actions) = drive(&craft, vec![Event::Probed(false)]);
    assert_eq!(actions, vec![Action::ProbeTarget, Action::ValidateTarget]);
}

#[test]
fn an_invalid_target_ends_the_process() {
    let craft = craft_at("proj");
    let (run, actions) = drive(
        &craft,
        vec![
            Event::Probed(false),
            Event::Failed(Error::ParseError("proj/Cargo.toml already exists".to_string())),
        ],
    );
    assert_eq!(actions[2], Action::Exit(2));
    assert_eq!(run.phase, Phase::Over);
}

#[test]
fn a_failure_rolls_back_a_fresh_target_only() {
    let mut craft = craft_at("proj");
    craft.rollback = true;
    let failure = Error::TemplateError("broken".to_string());
    let (run, actions) = drive(
        &craft,
        vec![
            Event::Probed(false),
            Event::Done,
            Event::Failed(failure.clone()),
            Event::Done,
            Event::Done,
        ],
    );
    assert_eq!(
        actions,
        vec![
            Action::ProbeTarget,
            Action::ValidateTarget,
            Action::WriteManifest,
            Action::WriteReceipt,
            Action::RollBack,
            Action::Finish,
        ]
    );
    assert_eq!(run.failure, Some(failure.clone()));
    assert!(run.began);
    assert!(!run.fatal);

    let (run, actions) = drive(
        &craft,
        vec![Event::Probed(true), Event::Done, Event::Failed(failure.clone()), Event::Done],
    );
    assert_eq!(actions[3], Action::WriteReceipt);
    assert_eq!(actions[4], Action::Finish);
    assert_eq!(run.failure, Some(failure.clone()));

    craft.rollback = false;
    let (_, actions) = drive(
        &craft,
        vec![Event::Probed(false), Event::Done, Event::Failed(failure.clone()), Event::Done],
    );
    assert_eq!(actions[3], Action::WriteReceipt);
    assert_eq!(actions[4], Action::Finish);

    craft.rollback = true;
    let gone = Error::IOError("cannot delete".to_string());
    let (run, actions) = drive(
        &craft,
        vec![
            Event::Probed(false),
            Event::Done,
            Event::Failed(failure),
            Event::Done,
            Event::Failed(gone.clone()),
        ],
    );
    assert_eq!(actions[4], Action::RollBack);
    assert_eq!(actions[5], Action::Finish);
    assert_eq!(run.failure, Some(gone));
    assert!(run.fatal);
}

#[test]
fn a_failed_run_has_its_receipt_with_the_error() {
    let craft = craft_at("proj");
    let failure = Error::IOError("error writing proj/src/lib.rs: disk full".to_string());
    let (mut run, first) = Run::start(true);
    assert_eq!(first, Action::ProbeTarget);
    for event in [Event::Probed(false), Event::Done, Event::Done] {
        run = run.advance(&craft, event).0;
    }
    assert_eq!(run.phase, Phase::Templates);
    let (run, action) = run.advance(&craft, Event::Failed(failure.clone()));
    assert_eq!(action, Action::WriteReceipt);
    assert_eq!(run.phase, Phase::Receipt);
    assert_eq!(run.failure, Some(failure.clone()));
    let (run, action) = run.advance(&craft, Event::Failed(Error::JsonError("x".to_string())));
    assert_eq!(action, Action::Finish);
    assert_eq!(run.failure, Some(failure));
    assert!(!run.fatal);
}

#[test]
fn nothing_is_undone_before_the_run_has_begun_to_write() {
    let mut craft = craft_at("proj");
    craft.rollback = true;
    let lost = Error::IOError("cannot look".to_string());
    let (run, actions) = drive(&craft, vec![Event::Failed(lost.clone()), Event::Done]);
    assert_eq!(actions, vec![Action::ProbeTarget, Action::WriteReceipt, Action::Finish]);
    assert_eq!(run.failure, Some(lost));
    assert!(!run.began);
}

#[test]
fn a_failed_check_fails_the_run_and_a_failed_build_ends_the_process() {
    let craft = craft_at("proj");
    let to_checks = vec![
        Event::Probed(true),
        Event::Done,
        Event::Done,
        Event::Written(Vec::new()),
        Event::Exited(7),
        Event::Exited(7),
    ];
    let mut events = to_checks.clone();
    events.push(Event::Exited(1));
    events.push(Event::Done);
    let (run, actions) = drive(&craft, events);
    assert_eq!(actions[6], Action::RunStep(2));
    assert_eq!(actions[7], Action::WriteReceipt);
    assert_eq!(actions[8], Action::Finish);
    assert_eq!(
        run.failure,
        Some(Error::ShellCommandError("\"cargo check \" failed with 1".to_string()))
    );

    let mut events = to_checks;
    events.push(Event::Exited(0));
    events.push(Event::Exited(1));
    let (run, actions) = drive(&craft, events);
    assert_eq!(actions[7], Action::RunStep(3));
    assert_eq!(actions[8], Action::Exit(1));
    assert_eq!(run.failure, None);
    assert_eq!(run.phase, Phase::Over);
}

#[test]
fn a_receipt_that_cannot_be_written_does_not_fail_the_run() {
    let craft = craft_at("proj");
    let mut events =
        vec![Event::Probed(true), Event::Done, Event::Done, Event::Written(Vec::new())];
    for _ in 0..8 {
        events.push(Event::Exited(0));
    }
    events.push(Event::Failed(Error::JsonError("corrupt".to_string())));
    let (run, actions) = drive(&craft, events);
    assert_eq!(actions[actions.len() - 2], Action::WriteReceipt);
    assert_eq!(actions[actions.len() - 1], Action::Finish);
    assert_eq!(run.failure, None);
}

#[test]
fn an_event_out_of_turn_fails_the_run() {
    let craft = craft_at("proj");
    let (run, actions) = drive(&craft, vec![Event::Exited(0), Event::Done]);
    assert_eq!(actions, vec![Action::ProbeTarget, Action::WriteReceipt, Action::Finish]);
    assert_eq!(run.failure, Some(Error::RuntimeError("unexpected event".to_string())));
    assert_eq!(run.phase, Phase::Over);
    let (run, actions) = drive(&craft, vec![Event::Exited(0), Event::Done, Event::Done]);
    assert_eq!(actions[3], Action::Finish);
    assert_eq!(run.phase, Phase::Over);
}

#[test]
fn an_invalid_configuration_is_refused_before_anything_is_done() {
    let mut craft = craft_at("proj");
    craft.rollback = true;
    craft.dep = vec!["x".to_string()];
    let (run, actions) = drive(&craft, vec![Event::Probed(false), Event::Done]);
    assert_eq!(actions, vec![Action::ProbeTarget, Action::WriteReceipt, Action::Finish]);
    assert_eq!(run.phase, Phase::Over);
    assert_eq!(
        run.failure,
        Some(Error::ParseError(
            "invalid value for '<NAME>': \"x\" is not a valid crate name".to_string()
        ))
    );
    assert!(run.steps.is_empty());

    let single = craft_at("some/dir/x");
    let (run, actions) = drive(&single, vec![Event::Probed(true), Event::Done]);
    assert_eq!(actions[1], Action::WriteReceipt);
    assert_eq!(actions[2], Action::Finish);
    assert_eq!(
        run.failure,
        Some(Error::ParseError("\"x\" does not appear to be a valid crate name".to_string()))
    );
}

#[test]
fn validation_of_a_configuration() {
    let mut craft = craft_at("my-crate");
    assert_eq!(craft.validate(), Ok(()));
    craft.dep = vec!["serde -Fderive".to_string(), "k9 --dev".to_string()];
    assert_eq!(craft.validate(), Ok(()));
    craft.package_name = Some("p".to_string());
    assert_eq!(
        craft.validate(),
        Err(Error::ParseError("\"p\" is not a valid package name".to_string()))
    );
    craft.package_name = Some("Fine Name".to_string());
    assert_eq!(craft.validate(), Ok(()));
    craft.dep.push("k9 --dev --build".to_string());
    assert_eq!(
        craft.validate(),
        Err(Error::ParseError(
            "the argument '--dev' cannot be used with '--build'".to_string()
        ))
    );
    let odd = craft_at("dir/ab--");
    assert_eq!(odd.crate_name(), "ab-");
    assert_eq!(
        odd.validate(),
        Err(Error::ParseError("\"ab-\" does not appear to be a valid crate name".to_string()))
    );
}

#[test]
fn a_project_in_the_way_is_never_touched() {
    let refused = Error::ParseError("proj/Cargo.toml already exists".to_string());
    for rollback in [false, true] {
        let mut craft = craft_at("proj");
        craft.rollback = rollback;
        let events = vec![
            Event::Probed(true),
            Event::Failed(refused.clone()),
            Event::Done,
            Event::Written(vec!["a.rs".to_string()]),
            Event::Exited(0),
            Event::Probed(false),
            Event::Done,
        ];
        let (run, actions) = drive(&craft, events);
        assert_eq!(actions[1], Action::ValidateTarget);
        assert_eq!(actions[2], Action::Exit(2));
        assert!(actions[3..].iter().all(|a| *a == Action::Finish));
        assert!(run.failure.unwrap().to_string().contains("already exists"));
        assert!(!run.began);
    }
}

#[test]
fn a_project_that_is_replaced_is_deleted_before_anything_is_written() {
    let mut craft = craft_at("proj");
    craft.force = true;
    let (_, actions) = drive(&craft, vec![Event::Probed(true), Event::Done, Event::Done]);
    assert_eq!(
        actions,
        vec![
            Action::ProbeTarget,
            Action::DeleteTarget,
            Action::WriteManifest,
            Action::WriteTemplates
        ]
    );
    let stuck = Error::IOError("cannot delete".to_string());
    let (run, actions) = drive(
        &craft,
        vec![Event::Probed(true), Event::Failed(stuck.clone()), Event::Done, Event::Done],
    );
    assert_eq!(
        actions,
        vec![
            Action::ProbeTarget,
            Action::DeleteTarget,
            Action::WriteReceipt,
            Action::Finish,
            Action::Finish
        ]
    );
    assert_eq!(run.failure, Some(stuck));
    craft.dep = vec!["x".to_string()];
    let (_, actions) = drive(&craft, vec![Event::Probed(true), Event::Done, Event::Done]);
    assert_eq!(
        actions,
        vec![Action::ProbeTarget, Action::WriteReceipt, Action::Finish, Action::Finish]
    );
}

#[test]
fn manifest_path_validation() {
    assert_eq!(manifest_target("my-crate", true), "my-crate");
    assert_eq!(manifest_target("my-crate", false), "my-crate");
    assert_eq!(manifest_target("some/dir/Cargo.toml", false), "some/dir");
    assert_eq!(manifest_target("some/dir/Cargo.toml", true), "some/dir/Cargo.toml");
    assert_eq!(manifest_target("Cargo.toml", false), "./");
    assert_eq!(manifest_path_of("my-crate"), "my-crate/Cargo.toml");
    assert_eq!(manifest_path_of("./tmp/test/dummy9"), "./tmp/test/dummy9/Cargo.toml");
    assert_eq!(
        manifest_path_verdict("my-crate", "my-crate/Cargo.toml", true, false),
        Err("my-crate/Cargo.toml already exists".to_string())
    );
    assert_eq!(
        manifest_path_verdict("my-crate", "my-crate/Cargo.toml", true, true),
        Ok("my-crate".to_string())
    );
    assert_eq!(
        manifest_path_verdict("my-crate", "my-crate/Cargo.toml", false, false),
        Ok("my-crate".to_string())
    );
}

#[test]
fn rollback_flag() {
    let mut craft = craft_at("proj");
    assert!(!craft.rollback_on_error());
    craft.rollback = true;
    assert!(craft.rollback_on_error());
}

#[test]
fn execution_result_holds_the_configuration() {
    let craft = craft_at("proj");
    let done = ExecutionResult::Done(craft.clone());
    let failed = ExecutionResult::Failed(craft.clone(), Error::IOError("x".to_string()));
    assert!(matches!(done, ExecutionResult::Done(c) if c == craft));
    assert!(matches!(failed, ExecutionResult::Failed(c, Error::IOError(_)) if c == craft));
}
