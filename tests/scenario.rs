use test_scenarios_rust::scenario::{Scenario, ScenarioGroup, ScenarioGroupImpl};

struct ScenarioStub {
    name: String,
}

impl Scenario for ScenarioStub {
    fn name(&self) -> &str {
        &self.name
    }

    fn run(&self, _input: Option<String>) -> Result<(), String> {
        Ok(())
    }
}

fn stub(name: &str) -> Box<dyn Scenario> {
    Box::new(ScenarioStub {
        name: name.to_string(),
    })
}

fn init_group() -> Box<dyn ScenarioGroup> {
    let scenario_inner = ScenarioStub {
        name: "inner_scenario".to_string(),
    };
    let group_inner = ScenarioGroupImpl::new("inner_group", vec![Box::new(scenario_inner)], vec![]);
    let scenario_outer = ScenarioStub {
        name: "outer_scenario".to_string(),
    };
    let group_outer = ScenarioGroupImpl::new(
        "outer_group",
        vec![Box::new(scenario_outer)],
        vec![group_inner],
    );

    Box::new(group_outer)
}

#[test]
fn test_group_name_ok() {
    let group = init_group();
    assert_eq!(group.name(), "outer_group");
}

#[test]
fn test_groups_ok() {
    let group = init_group();

    let groups_result = group.groups();
    assert_eq!(groups_result.len(), 1);
    assert_eq!(groups_result[0].name(), "inner_group");

    let scenarios_result = groups_result[0].scenarios();
    assert_eq!(scenarios_result.len(), 1);
    assert_eq!(scenarios_result[0].name(), "inner_scenario");
}

#[test]
fn test_scenarios_ok() {
    let group = init_group();

    let groups_result = group.groups();
    let scenarios_result = groups_result[0].scenarios();
    assert_eq!(scenarios_result.len(), 1);
    assert_eq!(scenarios_result[0].name(), "inner_scenario");
}

#[test]
fn test_find_scenario_ok() {
    let group = init_group();
    let scenario1 = group.find_scenario("inner_group.inner_scenario");
    assert!(scenario1.is_some_and(|s| s.name() == "inner_scenario"));
    let scenario2 = group.find_scenario("outer_scenario");
    assert!(scenario2.is_some_and(|s| s.name() == "outer_scenario"));
}

#[test]
fn test_find_scenario_empty_input() {
    let group = init_group();
    let scenario = group.find_scenario("");
    assert!(scenario.is_none());
}

#[test]
fn test_find_scenario_invalid_name() {
    let group = init_group();
    let scenario = group.find_scenario("invalid_group.invalid_scenario");
    assert!(scenario.is_none());
}

#[test]
fn single_segment_does_not_search_subgroups() {
    let group = init_group();
    assert!(group.find_scenario("inner_scenario").is_none());
}

#[test]
fn dotted_scenario_name_is_not_a_direct_match() {
    let inner = ScenarioGroupImpl::new("g", vec![stub("other")], vec![]);
    let group = ScenarioGroupImpl::new("root", vec![stub("g.rest")], vec![inner]);
    assert!(group.find_scenario("g.rest").is_none());
    let lone = ScenarioGroupImpl::new("root", vec![stub("g.rest")], vec![]);
    assert!(lone.find_scenario("g.rest").is_none());
}

#[test]
fn deep_lookup_resolves_each_segment() {
    let leaf = ScenarioGroupImpl::new("c", vec![stub("s")], vec![]);
    let middle = ScenarioGroupImpl::new("b", vec![], vec![leaf]);
    let root = ScenarioGroupImpl::new("a", vec![], vec![middle]);
    assert!(root.find_scenario("b.c.s").is_some_and(|s| s.name() == "s"));
    assert!(root.find_scenario("b.s").is_none());
    assert!(root.find_scenario("c.s").is_none());
    assert!(root.find_scenario("b.c.").is_none());
    assert!(root.find_scenario(".b.c.s").is_none());
}

#[test]
fn first_group_with_matching_name_wins() {
    let first = ScenarioGroupImpl::new("g", vec![stub("x")], vec![]);
    let second = ScenarioGroupImpl::new("g", vec![stub("y")], vec![]);
    let root = ScenarioGroupImpl::new("root", vec![], vec![first, second]);
    assert!(root.find_scenario("g.x").is_some());
    assert!(root.find_scenario("g.y").is_none());
}

#[test]
fn non_ascii_names_are_matched_by_character() {
    let inner = ScenarioGroupImpl::new("grüppe", vec![stub("szénárió")], vec![]);
    let root = ScenarioGroupImpl::new("root", vec![], vec![inner]);
    assert!(root
        .find_scenario("grüppe.szénárió")
        .is_some_and(|s| s.name() == "szénárió"));
    assert!(root.find_scenario("grüppe.szénári").is_none());
}
