use bcp::merge::{items_to_envs, merge_items, MergeError};
use bcp::model::{ConfigItem, DefinedItem, ExpResult, Experiment, Plan, State};
use bcp::plan::{config_items, make_plan, new_state};
use bcp::report::{gen_report, render_html};
use bcp::runner::{
    cargo_command, run_experiment, temp_path, time, Invocation, Options, Outcome, RunStep, Step,
};
use bcp::sweep::{Progress, SweepError, Sweep};

fn knob(path: &str, env: &str, values: &[&str], default: &str) -> ConfigItem {
    ConfigItem {
        path: path.to_string(),
        env_var: env.to_string(),
        values: values.iter().map(|s| s.to_string()).collect(),
        default: default.to_string(),
    }
}

fn opt_level() -> ConfigItem {
    knob("opt-level", "OPT", &["0", "1", "2", "3"], "3")
}

fn debug() -> ConfigItem {
    knob("debug", "DEBUG", &["false", "true"], "false")
}

fn setting(item: &ConfigItem, value: &str) -> DefinedItem {
    DefinedItem { item: item.clone(), value: value.to_string() }
}

fn values_of(e: &Experiment) -> Vec<(String, String)> {
    e.configs.iter().map(|d| (d.item.path.clone(), d.value.clone())).collect()
}

fn secs(s: u64) -> u64 {
    s * 1_000_000_000
}

/// Drives a sweep with every invocation succeeding after `elapsed` nanoseconds;
/// returns the invocations performed.
fn drive(sweep: &mut Sweep, elapsed: u64) -> Vec<Invocation> {
    let mut done = Vec::new();
    loop {
        match sweep.next_invocation() {
            Ok(Some(inv)) => {
                done.push(inv);
                match sweep.on_outcome(Outcome::Success { elapsed }) {
                    Progress::Failed(_) => panic!("unexpected failure"),
                    _ => {}
                }
            }
            Ok(None) => return done,
            Err(_) => panic!("unexpected error"),
        }
    }
}

#[test]
fn plan_of_single_knob_skips_default() {
    let plan = make_plan(&vec![opt_level()]);
    let cases: Vec<Vec<(String, String)>> = plan.cases.iter().map(values_of).collect();
    let expected: Vec<Vec<(String, String)>> = vec![
        vec![],
        vec![("opt-level".to_string(), "0".to_string())],
        vec![("opt-level".to_string(), "1".to_string())],
        vec![("opt-level".to_string(), "2".to_string())],
    ];
    assert_eq!(cases, expected);
    assert_eq!(plan.baseline.len(), 1);
    assert_eq!(plan.baseline[0].value, "3");
}

#[test]
fn default_plan_has_no_redundant_case() {
    let state = new_state();
    assert_eq!(state.results.len(), 0);
    let plan = &state.plan;
    assert_eq!(plan.baseline.len(), 9);
    assert_eq!(plan.cases.len(), 13);
    assert!(plan.cases[0].configs.is_empty());
    for case in &plan.cases[1..] {
        assert_eq!(case.configs.len(), 1);
        assert_ne!(case.configs[0].value, case.configs[0].item.default);
    }
}

#[test]
fn empty_catalog_plans_only_the_baseline() {
    let plan = make_plan(&vec![]);
    assert!(plan.baseline.is_empty());
    assert_eq!(plan.cases.len(), 1);
    assert!(plan.cases[0].configs.is_empty());
}

#[test]
fn catalog_has_nine_knobs() {
    let items = config_items();
    assert_eq!(items.len(), 9);
    assert_eq!(items[0].path, "profile.release.opt-level");
    assert_eq!(items[0].env_var, "CARGO_PROFILE_RELEASE_OPT_LEVEL");
    assert_eq!(items[0].values, vec!["0", "1", "2", "3"]);
    assert_eq!(items[0].default, "3");
    assert!(items[6].values.is_empty());
}

#[test]
fn merge_changes_only_the_overridden_knob() {
    let base = vec![setting(&opt_level(), "3"), setting(&debug(), "false")];
    let merged = match merge_items(&base, &vec![setting(&debug(), "true")]) {
        Ok(m) => m,
        Err(_) => panic!("merge refused"),
    };
    assert_eq!(merged.len(), 2);
    assert_eq!(merged[0].item.path, "opt-level");
    assert_eq!(merged[0].value, "3");
    assert_eq!(merged[1].item.path, "debug");
    assert_eq!(merged[1].value, "true");
}

#[test]
fn merge_applies_settings_in_order() {
    let base = vec![setting(&opt_level(), "3")];
    let items = vec![setting(&opt_level(), "1"), setting(&opt_level(), "2")];
    let merged = match merge_items(&base, &items) {
        Ok(m) => m,
        Err(_) => panic!("merge refused"),
    };
    assert_eq!(merged.len(), 1);
    assert_eq!(merged[0].value, "2");
}

#[test]
fn merge_refuses_unknown_knob() {
    let base = vec![setting(&opt_level(), "3")];
    let items = vec![setting(&opt_level(), "1"), setting(&debug(), "true")];
    match merge_items(&base, &items) {
        Err(MergeError::UnknownKnob { position }) => assert_eq!(position, 1),
        Ok(_) => panic!("merge accepted an unknown knob"),
    }
}

#[test]
fn envs_follow_configuration_order() {
    let items = vec![setting(&opt_level(), "0"), setting(&debug(), "false")];
    let envs = items_to_envs(&items);
    assert_eq!(
        envs,
        vec![
            ("OPT".to_string(), "0".to_string()),
            ("DEBUG".to_string(), "false".to_string()),
        ]
    );
}

#[test]
fn runner_environment_holds_override_and_baseline() {
    let base = vec![setting(&opt_level(), "3"), setting(&debug(), "false")];
    let case = Experiment { configs: vec![setting(&opt_level(), "0")] };
    let runner = match run_experiment(&base, &case) {
        Ok(r) => r,
        Err(_) => panic!("merge refused"),
    };
    assert!(runner.step == Step::Clean);
    let inv = runner.invocation();
    assert_eq!(inv.subcommand, "clean");
    assert!(inv.args.is_empty());
    assert!(inv.envs.contains(&("OPT".to_string(), "0".to_string())));
    assert!(inv.envs.contains(&("DEBUG".to_string(), "false".to_string())));
    assert!(!inv.envs.contains(&("OPT".to_string(), "3".to_string())));
}

#[test]
fn runner_steps_and_timings() {
    let base = vec![setting(&opt_level(), "3")];
    let case = Experiment { configs: vec![] };
    let r0 = run_experiment(&base, &case).ok().unwrap();
    let r1 = match r0.advance(Outcome::Success { elapsed: 7 }) {
        RunStep::Next(n) => n,
        _ => panic!("expected next step"),
    };
    assert!(r1.step == Step::BuildOnly);
    let inv = r1.invocation();
    assert_eq!(inv.subcommand, "bench");
    assert_eq!(inv.args, vec!["--no-run".to_string()]);
    let r2 = match r1.advance(Outcome::Success { elapsed: 40 }) {
        RunStep::Next(n) => n,
        _ => panic!("expected next step"),
    };
    assert!(r2.step == Step::BuildAndRun);
    assert_eq!(r2.build_time, 40);
    let inv = r2.invocation();
    assert_eq!(inv.subcommand, "bench");
    assert!(inv.args.is_empty());
    match r2.advance(Outcome::Success { elapsed: 90 }) {
        RunStep::Finished(res) => {
            assert_eq!(res.build_time, 40);
            assert_eq!(res.run_time, 90);
        }
        _ => panic!("expected a result"),
    }
}

#[test]
fn runner_failure_names_the_step() {
    let base = vec![setting(&opt_level(), "3")];
    let case = Experiment { configs: vec![] };
    let r0 = run_experiment(&base, &case).ok().unwrap();
    match r0.advance(Outcome::Failure { status: Some(101) }) {
        RunStep::Failed(f) => {
            assert!(f.step == Step::Clean);
            assert_eq!(f.status, Some(101));
        }
        _ => panic!("expected failure"),
    }
}

#[test]
fn build_failure_leaves_results_unchanged() {
    let mut sweep = Sweep::resume(Some(State { plan: make_plan(&vec![opt_level()]), results: vec![] }))
        .ok()
        .unwrap();
    // First case runs to completion.
    for _ in 0..3 {
        sweep.next_invocation().ok().unwrap().unwrap();
        sweep.on_outcome(Outcome::Success { elapsed: 5 });
    }
    assert_eq!(sweep.state.results.len(), 1);
    // Second case: clean succeeds, build-only fails.
    sweep.next_invocation().ok().unwrap().unwrap();
    sweep.on_outcome(Outcome::Success { elapsed: 1 });
    let inv = sweep.next_invocation().ok().unwrap().unwrap();
    assert_eq!(inv.args, vec!["--no-run".to_string()]);
    match sweep.on_outcome(Outcome::Failure { status: Some(1) }) {
        Progress::Failed(f) => assert!(f.step == Step::BuildOnly),
        _ => panic!("expected failure"),
    }
    assert_eq!(sweep.state.results.len(), 1);
    assert!(sweep.runner.is_none());
    // Resuming retries the same case from its clean step.
    let mut again = Sweep::resume(Some(sweep.state)).ok().unwrap();
    let inv = again.next_invocation().ok().unwrap().unwrap();
    assert_eq!(inv.subcommand, "clean");
    assert!(inv.envs.contains(&("OPT".to_string(), "0".to_string())));
}

#[test]
fn sweep_records_after_build_and_run() {
    let mut sweep = Sweep::resume(Some(State { plan: make_plan(&vec![opt_level()]), results: vec![] }))
        .ok()
        .unwrap();
    sweep.next_invocation().ok().unwrap().unwrap();
    assert!(matches!(sweep.on_outcome(Outcome::Success { elapsed: 1 }), Progress::Continue));
    sweep.next_invocation().ok().unwrap().unwrap();
    assert!(matches!(sweep.on_outcome(Outcome::Success { elapsed: 20 }), Progress::Continue));
    sweep.next_invocation().ok().unwrap().unwrap();
    assert!(matches!(sweep.on_outcome(Outcome::Success { elapsed: 30 }), Progress::Recorded));
    assert_eq!(sweep.state.results.len(), 1);
    assert_eq!(sweep.state.results[0].build_time, 20);
    assert_eq!(sweep.state.results[0].run_time, 30);
}

#[test]
fn resumption_after_completion_runs_nothing() {
    let mut sweep = Sweep::resume(Some(State { plan: make_plan(&vec![opt_level()]), results: vec![] }))
        .ok()
        .unwrap();
    let done = drive(&mut sweep, 3);
    assert_eq!(done.len(), 4 * 3);
    assert_eq!(sweep.state.results.len(), 4);
    let first = gen_report(&sweep.state);
    let mut again = Sweep::resume(Some(sweep.state)).ok().unwrap();
    let more = drive(&mut again, 3);
    assert!(more.is_empty());
    let second = gen_report(&again.state);
    let a: Vec<_> = first.results_by_total_time.iter().map(|p| (values_of(&p.0), p.1.build_time, p.1.run_time)).collect();
    let b: Vec<_> = second.results_by_total_time.iter().map(|p| (values_of(&p.0), p.1.build_time, p.1.run_time)).collect();
    assert_eq!(a, b);
}

#[test]
fn results_stay_a_prefix_across_restarts() {
    let plan = make_plan(&vec![opt_level(), debug()]);
    let n = plan.cases.len();
    let mut state = State { plan, results: vec![] };
    for k in 0..n {
        let mut sweep = Sweep::resume(Some(state)).ok().unwrap();
        assert_eq!(sweep.state.results.len(), k);
        for _ in 0..3 {
            sweep.next_invocation().ok().unwrap().unwrap();
            sweep.on_outcome(Outcome::Success { elapsed: k as u64 });
        }
        assert_eq!(sweep.state.results.len(), k + 1);
        for (i, r) in sweep.state.results.iter().enumerate() {
            assert_eq!(r.run_time, i as u64);
        }
        state = sweep.state;
    }
    assert_eq!(state.results.len(), n);
}

#[test]
fn fresh_sweep_uses_default_plan() {
    let mut sweep = Sweep::resume(None).ok().unwrap();
    assert_eq!(sweep.state.plan.cases.len(), 13);
    assert!(sweep.state.results.is_empty());
    let inv = sweep.next_invocation().ok().unwrap().unwrap();
    assert_eq!(inv.subcommand, "clean");
    assert_eq!(inv.envs.len(), 9);
}

#[test]
fn inconsistent_state_is_refused() {
    let state = State {
        plan: make_plan(&vec![]),
        results: vec![ExpResult { build_time: 1, run_time: 1 }, ExpResult { build_time: 1, run_time: 1 }],
    };
    assert!(!state.validate());
    assert!(matches!(Sweep::resume(Some(state)), Err(SweepError::Inconsistent)));
}

#[test]
fn case_with_unknown_knob_is_refused() {
    let plan = Plan {
        baseline: vec![setting(&opt_level(), "3")],
        cases: vec![Experiment { configs: vec![] }, Experiment { configs: vec![setting(&debug(), "true")] }],
    };
    let state = State { plan, results: vec![ExpResult { build_time: 1, run_time: 2 }] };
    let mut sweep = Sweep::resume(Some(state)).ok().unwrap();
    match sweep.next_invocation() {
        Err(SweepError::UnknownKnob { case, position }) => {
            assert_eq!(case, 1);
            assert_eq!(position, 0);
        }
        _ => panic!("expected refusal"),
    }
    assert!(sweep.runner.is_none());
}

#[test]
fn report_ranks_shorter_total_first() {
    let plan = make_plan(&vec![knob("lto", "LTO", &["false"], "true")]);
    let state = State {
        plan,
        results: vec![
            ExpResult { build_time: secs(3), run_time: secs(2) },
            ExpResult { build_time: secs(1), run_time: secs(1) },
        ],
    };
    let report = gen_report(&state);
    let entries = &report.results_by_total_time;
    assert_eq!(entries.len(), 2);
    assert_eq!(entries[0].1.build_time + entries[0].1.run_time, secs(2));
    assert_eq!(values_of(&entries[0].0), vec![("lto".to_string(), "false".to_string())]);
    assert_eq!(entries[1].1.build_time + entries[1].1.run_time, secs(5));
    assert!(entries[1].0.configs.is_empty());
}

#[test]
fn report_keeps_plan_order_on_ties() {
    let plan = make_plan(&vec![opt_level()]);
    let state = State {
        plan,
        results: vec![
            ExpResult { build_time: 4, run_time: 4 },
            ExpResult { build_time: 2, run_time: 6 },
            ExpResult { build_time: 1, run_time: 1 },
            ExpResult { build_time: 8, run_time: 0 },
        ],
    };
    let report = gen_report(&state);
    let order: Vec<String> = report.results_by_total_time.iter().map(|p| p.0.display()).collect();
    assert_eq!(
        order,
        vec![
            "opt-level=1,".to_string(),
            "(baseline)".to_string(),
            "opt-level=0,".to_string(),
            "opt-level=2,".to_string(),
        ]
    );
    assert!(render_html(&report).is_empty());
}

#[test]
fn display_names_experiments() {
    let e = Experiment { configs: vec![] };
    assert_eq!(e.display(), "(baseline)");
    let e = Experiment { configs: vec![setting(&opt_level(), "0"), setting(&debug(), "true")] };
    assert_eq!(e.display(), "opt-level=0,debug=true,");
}

#[test]
fn paths_inside_data_dir() {
    let o = Options { manifest_path: "Cargo.toml".to_string(), data_dir: "./".to_string() };
    assert_eq!(o.state_path(), "./bcp-state.json");
    assert_eq!(o.report_path(), "./bcp-report.html");
    let o = Options { manifest_path: "Cargo.toml".to_string(), data_dir: "out".to_string() };
    assert_eq!(o.state_path(), "out/bcp-state.json");
    let o = Options { manifest_path: "Cargo.toml".to_string(), data_dir: "".to_string() };
    assert_eq!(o.report_path(), "bcp-report.html");
    assert_eq!(temp_path(&"d/bcp-state.json".to_string()), "d/bcp-state.json.tmp");
}

#[test]
fn cargo_command_lines() {
    let o = Options { manifest_path: "proj/Cargo.toml".to_string(), data_dir: "./".to_string() };
    let inv = Invocation {
        subcommand: "bench".to_string(),
        args: vec!["--no-run".to_string()],
        envs: vec![("OPT".to_string(), "0".to_string())],
    };
    let cmd = cargo_command(&o, &inv);
    assert_eq!(cmd.program, "cargo");
    assert_eq!(
        cmd.args,
        vec!["bench", "--manifest-path=proj/Cargo.toml", "-vv", "-Zunstable-options", "-Zconfig-profile", "--no-run"]
    );
    assert_eq!(
        cmd.envs,
        vec![
            ("RUSTC_BOOTSTRAP".to_string(), "1".to_string()),
            ("OPT".to_string(), "0".to_string()),
        ]
    );
}

#[test]
fn elapsed_between_readings() {
    assert_eq!(time(10, 25), 15);
    assert_eq!(time(25, 10), 0);
    assert_eq!(time(7, 7), 0);
}
