use test_scenarios_rust::scenario::{Scenario, ScenarioGroup, ScenarioGroupImpl};
use test_scenarios_rust::test_context::TestContext;

struct ScenarioStub {
    name: String,
}

impl Scenario for ScenarioStub {
    fn name(&self) -> &str {
        &self.name
    }

    fn run(&self, input: Option<String>) -> Result<(), String> {
        if let Some(value) = input {
            match value.as_str() {
                "ok" => Ok(()),
                "error" => Err("Requested error".to_string()),
                _ => Err("Missing input".to_string()),
            }
        } else {
            Err("Missing input".to_string())
        }
    }
}

fn stub(name: &str) -> Box<dyn Scenario> {
    Box::new(ScenarioStub {
        name: name.to_string(),
    })
}

fn init_group() -> Box<dyn ScenarioGroup> {
    let scenario_inner = ScenarioStub {
        name: "inner_scenario".to_string(),
    };
    let group_inner = ScenarioGroupImpl::new("inner_group", vec![Box::new(scenario_inner)], vec![]);
    let scenario_outer = ScenarioStub {
        name: "outer_scenario".to_string(),
    };
    let group_outer = ScenarioGroupImpl::new(
        "outer_group",
        vec![Box::new(scenario_outer)],
        vec![group_inner],
    );

    Box::new(group_outer)
}

#[test]
fn test_run_none_input_err() {
    let root_group = init_group();
    let context = TestContext::new(root_group);
    let result = context.run("inner_group.inner_scenario", None);

    assert!(result.is_err_and(|e| e == "Missing input"));
}

#[test]
fn test_run_some_input_ok() {
    let root_group = init_group();
    let context = TestContext::new(root_group);
    let result = context.run("inner_group.inner_scenario", Some("ok".to_string()));

    assert!(result.is_ok());
}

#[test]
fn test_run_some_input_err() {
    let root_group = init_group();
    let context = TestContext::new(root_group);
    let result = context.run("inner_group.inner_scenario", Some("error".to_string()));

    assert!(result.is_err_and(|e| e == "Requested error"));
}

#[test]
fn test_run_not_found() {
    let root_group = init_group();
    let context = TestContext::new(root_group);
    let result = context.run("some_scenario", None);

    assert!(result.is_err_and(|e| e == "Scenario some_scenario not found"));
}

#[test]
fn test_list_scenarios_ok() {
    let root_group = init_group();
    let context = TestContext::new(root_group);
    let result = context.list_scenarios();

    assert_eq!(result.len(), 2);
    assert_eq!(result[0], "inner_group.inner_scenario");
    assert_eq!(result[1], "outer_scenario");
}

#[test]
fn test_list_scenarios_empty() {
    let root_group = ScenarioGroupImpl::new("root", vec![], vec![]);
    let context = TestContext::new(Box::new(root_group));
    let result = context.list_scenarios();

    assert_eq!(result.len(), 0);
}

#[test]
fn subgroup_names_are_listed_before_own_scenarios() {
    let g = ScenarioGroupImpl::new("G", vec![stub("s1")], vec![]);
    let root = ScenarioGroupImpl::new("root", vec![stub("s2")], vec![g]);
    let context = TestContext::new(Box::new(root));
    assert_eq!(context.list_scenarios(), vec!["G.s1".to_string(), "s2".to_string()]);
}

#[test]
fn listing_is_depth_first_in_order() {
    let deep = ScenarioGroupImpl::new("c", vec![stub("x")], vec![]);
    let b = ScenarioGroupImpl::new("b", vec![stub("y"), stub("z")], vec![deep]);
    let d = ScenarioGroupImpl::new("d", vec![stub("w")], vec![]);
    let root = ScenarioGroupImpl::new("root", vec![stub("top")], vec![b, d]);
    let context = TestContext::new(Box::new(root));
    assert_eq!(
        context.list_scenarios(),
        vec![
            "b.c.x".to_string(),
            "b.y".to_string(),
            "b.z".to_string(),
            "d.w".to_string(),
            "top".to_string()
        ]
    );
}

#[test]
fn run_passes_ok_and_error_through() {
    let g = ScenarioGroupImpl::new("g", vec![stub("s")], vec![]);
    let root = ScenarioGroupImpl::new("root", vec![], vec![g]);
    let context = TestContext::new(Box::new(root));
    assert_eq!(context.run("g.s", Some("ok".to_string())), Ok(()));
    assert_eq!(
        context.run("g.s", Some("error".to_string())),
        Err("Requested error".to_string())
    );
}

#[test]
fn run_unknown_name_reports_it() {
    let context = TestContext::new(init_group());
    assert_eq!(
        context.run("nope", Some("ok".to_string())),
        Err("Scenario nope not found".to_string())
    );
    assert_eq!(
        context.run("", Some("ok".to_string())),
        Err("Scenario  not found".to_string())
    );
}

#[test]
fn resolve_finds_registered_scenario() {
    let context = TestContext::new(init_group());
    assert!(context
        .resolve("inner_group.inner_scenario")
        .is_ok_and(|s| s.name() == "inner_scenario"));
    assert!(context
        .resolve("inner_group.missing")
        .is_err_and(|e| e == "Scenario inner_group.missing not found"));
}

#[test]
fn every_listed_name_resolves_to_its_scenario() {
    let deep = ScenarioGroupImpl::new("c", vec![stub("x")], vec![]);
    let b = ScenarioGroupImpl::new("b", vec![stub("y")], vec![deep]);
    let root = ScenarioGroupImpl::new("root", vec![stub("top")], vec![b]);
    let context = TestContext::new(Box::new(root));
    let names = context.list_scenarios();
    assert_eq!(names.len(), 3);
    for name in names {
        let last = name.rsplit('.').next().unwrap().to_string();
        assert!(context.resolve(&name).is_ok_and(|s| s.name() == last));
    }
}
