use plugin_host::diagnostics::HostError;
use plugin_host::proxy::interpret_load_response;
use plugin_host::proxy::interpret_run_response;
use plugin_host::registry::op_lint_get_rule;
use plugin_host::registry::op_lint_report;
use plugin_host::registry::LintPluginContainer;
use plugin_host::registry::LintPluginDesc;
use plugin_host::registry::RuleHandle;
use plugin_host::runner::PluginDefinition;
use plugin_host::runner::PluginRunner;
use plugin_host::runner::PluginRunnerResponse;
use plugin_host::runner::RuleDefinition;

fn def(name: &str, rules: &[(&str, u64)]) -> PluginDefinition {
    PluginDefinition {
        name: name.to_string(),
        rules: rules
            .iter()
            .map(|(rule, id)| {
                (rule.to_string(), RuleDefinition { create: RuleHandle { id: *id } })
            })
            .collect(),
    }
}

#[test]
fn register_duplicate_keeps_first() {
    let mut container = LintPluginContainer::new();
    let mut rules1 = indexmap::IndexMap::new();
    rules1.insert("r1".to_string(), RuleHandle { id: 1 });
    let mut rules2 = indexmap::IndexMap::new();
    rules2.insert("r2".to_string(), RuleHandle { id: 2 });

    let first = container.register("p".to_string(), LintPluginDesc { rules: rules1 });
    assert!(first.is_ok());
    let second = container.register("p".to_string(), LintPluginDesc { rules: rules2 });
    assert_eq!(second, Err(HostError::AlreadyExists { plugin: "p".to_string() }));

    // the registry holds exactly the first registration
    assert_eq!(op_lint_get_rule(&container, "p", "r1"), Ok(RuleHandle { id: 1 }));
    assert_eq!(
        op_lint_get_rule(&container, "p", "r2"),
        Err(HostError::RuleNotFound { plugin: "p".to_string(), rule: "r2".to_string() })
    );
}

#[test]
fn load_plugins_registers_in_order() {
    let mut runner = PluginRunner::new();
    let r = runner.load_plugins(vec![
        def("alpha", &[("a1", 1), ("a2", 2)]),
        def("beta", &[("b1", 3)]),
    ]);
    assert!(r.is_ok());

    let plan = runner.get_rules_to_run();
    assert_eq!(plan.len(), 2);
    assert_eq!(plan[0].0, "alpha");
    assert_eq!(plan[0].1, vec!["a1".to_string(), "a2".to_string()]);
    assert_eq!(plan[1].0, "beta");
    assert_eq!(plan[1].1, vec!["b1".to_string()]);
}

#[test]
fn load_plugins_duplicate_stops_without_rollback() {
    let mut runner = PluginRunner::new();
    let r = runner.load_plugins(vec![
        def("alpha", &[("a1", 1)]),
        def("beta", &[("b1", 2)]),
        def("alpha", &[("a9", 9)]),
    ]);
    assert_eq!(r, Err(HostError::AlreadyExists { plugin: "alpha".to_string() }));

    // the two plugins registered before the duplicate stay registered
    let plan = runner.get_rules_to_run();
    assert_eq!(plan.len(), 2);
    assert_eq!(plan[0].0, "alpha");
    assert_eq!(plan[1].0, "beta");
    assert_eq!(op_lint_get_rule(&runner.container, "alpha", "a1"), Ok(RuleHandle { id: 1 }));
    assert_eq!(op_lint_get_rule(&runner.container, "alpha", "a9").is_err(), true);
}

#[test]
fn run_drains_diagnostics_and_second_run_is_empty() {
    let mut runner = PluginRunner::new();
    op_lint_report(&mut runner.container, "id1".to_string(), "a.js".to_string(), "m1".to_string());
    op_lint_report(&mut runner.container, "id2".to_string(), "a.js".to_string(), "m2".to_string());

    match runner.finish_run() {
        PluginRunnerResponse::Run(Ok(diags)) => {
            assert_eq!(diags.len(), 2);
            assert_eq!(diags[0].id, "id1");
            assert_eq!(diags[1].id, "id2");
        }
        other => panic!("unexpected response {:?}", other),
    }
    assert!(runner.container.diagnostics.is_empty());

    // a second run with no new reports answers with an empty sequence
    match runner.finish_run() {
        PluginRunnerResponse::Run(Ok(diags)) => assert!(diags.is_empty()),
        other => panic!("unexpected response {:?}", other),
    }
}

#[test]
fn fresh_runner_has_empty_plan_and_empty_run() {
    let mut runner = PluginRunner::new();
    assert!(runner.get_rules_to_run().is_empty());
    match runner.finish_run() {
        PluginRunnerResponse::Run(Ok(diags)) => assert!(diags.is_empty()),
        other => panic!("unexpected response {:?}", other),
    }
}

#[test]
fn closed_channel_means_already_closed() {
    assert_eq!(interpret_load_response(None), Err(HostError::AlreadyClosed));
    assert_eq!(interpret_run_response(None), Err(HostError::AlreadyClosed));
}

#[test]
fn interpreters_pass_runner_results_through() {
    let load_err = HostError::LoadFailed { message: "bad module".to_string() };
    assert_eq!(
        interpret_load_response(Some(PluginRunnerResponse::LoadPlugin(Err(load_err.clone())))),
        Err(load_err)
    );
    assert_eq!(
        interpret_load_response(Some(PluginRunnerResponse::LoadPlugin(Ok(())))),
        Ok(())
    );
    assert_eq!(
        interpret_run_response(Some(PluginRunnerResponse::Run(Ok(vec![])))),
        Ok(vec![])
    );
    // a mismatched variant is treated like a closed channel on the run path
    assert_eq!(
        interpret_run_response(Some(PluginRunnerResponse::LoadPlugin(Ok(())))),
        Err(HostError::AlreadyClosed)
    );
}

#[test]
fn rule_lookup_names_the_missing_part() {
    let mut runner = PluginRunner::new();
    runner.load_plugins(vec![def("p", &[("r", 7)])]).unwrap();

    assert_eq!(op_lint_get_rule(&runner.container, "p", "r"), Ok(RuleHandle { id: 7 }));
    assert_eq!(
        op_lint_get_rule(&runner.container, "q", "r"),
        Err(HostError::PluginNotFound { plugin: "q".to_string() })
    );
    assert_eq!(
        op_lint_get_rule(&runner.container, "p", "s"),
        Err(HostError::RuleNotFound { plugin: "p".to_string(), rule: "s".to_string() })
    );
}

#[test]
fn report_builds_minimal_diagnostic() {
    let mut container = LintPluginContainer::new();
    container.report("code".to_string(), "dir/file.ts".to_string(), "msg".to_string());
    assert_eq!(container.diagnostics.len(), 1);
    let d = &container.diagnostics[0];
    assert_eq!(d.id, "code");
    assert_eq!(d.specifier, "file:///dir/file.ts");
    assert_eq!(d.message, "msg");
    assert_eq!(d.range, None);
    assert_eq!(d.hint, None);
    assert!(d.fixes.is_empty());
    assert!(d.info.is_empty());
}

#[test]
fn failing_rule_is_isolated_from_the_rest_of_the_plan() {
    // a plan of 3 rules; rule 2 resolves a nonexistent rule name and fails
    let mut runner = PluginRunner::new();
    runner
        .load_plugins(vec![def("p", &[("one", 1), ("two", 2), ("three", 3)])])
        .unwrap();

    let plan = runner.get_rules_to_run();
    let mut failures = 0;
    for (plugin, rules) in &plan {
        for rule in rules {
            // every planned rule is attempted, whatever happened before
            match rule.as_str() {
                "one" | "three" => {
                    let handle = op_lint_get_rule(&runner.container, plugin, rule).unwrap();
                    assert!(handle.id == 1 || handle.id == 3);
                    op_lint_report(
                        &mut runner.container,
                        rule.clone(),
                        "foo.js".to_string(),
                        format!("finding of {}", rule),
                    );
                }
                _ => {
                    // rule 2 asks for a rule that is not registered
                    let missing = op_lint_get_rule(&runner.container, plugin, "no-such-rule");
                    assert_eq!(
                        missing,
                        Err(HostError::RuleNotFound {
                            plugin: plugin.clone(),
                            rule: "no-such-rule".to_string(),
                        })
                    );
                    failures += 1;
                }
            }
        }
    }
    assert_eq!(failures, 1);

    match runner.finish_run() {
        PluginRunnerResponse::Run(Ok(diags)) => {
            // rules 1 and 3 reported; rule 2's failure left no diagnostic
            assert_eq!(diags.len(), 2);
            assert_eq!(diags[0].id, "one");
            assert_eq!(diags[1].id, "three");
        }
        other => panic!("unexpected response {:?}", other),
    }
}

#[test]
fn no_console_end_to_end() {
    let mut runner = PluginRunner::new();
    let r = runner.load_plugins(vec![def("no-console", &[("no-console", 1)])]);
    assert!(r.is_ok());

    // running against any serialized syntax tree: every planned rule is
    // resolved and invoked; this rule reports once whenever invoked
    let plan = runner.get_rules_to_run();
    assert_eq!(plan.len(), 1);
    for (plugin, rules) in &plan {
        for rule in rules {
            op_lint_get_rule(&runner.container, plugin, rule).unwrap();
            op_lint_report(
                &mut runner.container,
                "no-console".to_string(),
                "foo.js".to_string(),
                "Unexpected console statement".to_string(),
            );
        }
    }

    match runner.finish_run() {
        PluginRunnerResponse::Run(Ok(diags)) => {
            assert_eq!(diags.len(), 1);
            assert_eq!(diags[0].id, "no-console");
            assert_eq!(diags[0].message, "Unexpected console statement");
            assert_eq!(diags[0].specifier, "file:///foo.js");
        }
        other => panic!("unexpected response {:?}", other),
    }
}
