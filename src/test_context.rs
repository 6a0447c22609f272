use crate::scenario::{
    lemma_group_from_distinct, lemma_multi_segment_goes_through_group,
    lemma_single_segment_is_direct, lookup, opt_view, result_view, GroupModel, Scenario, ScenarioGroup, ScenarioGroupImpl};
use vstd::prelude::*;

verus! {

/// `right` qualified by `left`: the two joined by a `.`, or `right` alone when
/// `left` is empty.
pub open spec fn joined(left: Seq<char>, right: Seq<char>) -> Seq<char> {
    if left.len() == 0 {
        right
    } else {
        left + seq!['.'] + right
    }
}

/// Qualified names of every scenario under `g`, each prefixed by `prefix`:
/// first those of its subgroups, in order and depth first, then those of its
/// own scenarios.
pub open spec fn listing(g: GroupModel, prefix: Seq<char>) -> Seq<Seq<char>>
    decreases g, g.groups.len() + 1,
{
    listing_groups(g, prefix, g.groups.len() as int) + g.scenarios.map_values(
        |s: Seq<char>| joined(prefix, s),
    )
}

/// Qualified names contributed by the first `n` subgroups of `g`.
pub open spec fn listing_groups(g: GroupModel, prefix: Seq<char>, n: int) -> Seq<Seq<char>>
    decreases g, n,
{
    if n <= 0 || n > g.groups.len() {
        Seq::empty()
    } else {
        listing_groups(g, prefix, n - 1) + listing(
            g.groups[n - 1],
            joined(prefix, g.groups[n - 1].name),
        )
    }
}

/// A group with neither subgroups nor scenarios lists no names.
pub proof fn lemma_empty_group_lists_nothing(g: GroupModel, prefix: Seq<char>)
    requires
        g.groups.len() == 0,
        g.scenarios.len() == 0,
    ensures
        listing(g, prefix) == Seq::<Seq<char>>::empty(),
{
    assert(listing(g, prefix) =~= Seq::<Seq<char>>::empty());
}

/// In the listing of a root group whose one subgroup `c` holds scenarios but
/// no groups, the names of `c`'s scenarios, each qualified by `c`'s name, come
/// first and the root's own scenario names after them.
pub proof fn lemma_subgroup_names_come_first(g: GroupModel, c: GroupModel)
    requires
        g.groups == seq![c],
        c.groups.len() == 0,
    ensures
        listing(g, Seq::empty()) == c.scenarios.map_values(|s: Seq<char>| joined(c.name, s))
            + g.scenarios,
{
    let e = Seq::<char>::empty();
    assert(joined(e, c.name) == c.name);
    assert(listing_groups(c, c.name, 0) =~= Seq::<Seq<char>>::empty());
    assert(listing(c, c.name) =~= c.scenarios.map_values(|s: Seq<char>| joined(c.name, s)));
    assert(listing_groups(g, e, 0) =~= Seq::<Seq<char>>::empty());
    assert(listing_groups(g, e, 1) =~= listing(c, c.name));
    assert(g.scenarios.map_values(|s: Seq<char>| joined(e, s)) =~= g.scenarios);
}

/// A name that can stand as one segment of a dotted name: non-empty and
/// without a dot.
pub open spec fn is_segment(n: Seq<char>) -> bool {
    n.len() > 0 && !n.contains('.')
}

/// Every name in the tree under `g` is a segment, and no two direct subgroups
/// of any group share a name.
pub open spec fn well_named(g: GroupModel) -> bool
    decreases g,
{
    &&& forall|i: int| 0 <= i < g.scenarios.len() ==> is_segment(#[trigger] g.scenarios[i])
    &&& forall|a: int, b: int|
        0 <= a < g.groups.len() && 0 <= b < g.groups.len() && a != b ==> g.groups[a].name
            != g.groups[b].name
    &&& forall|i: int|
        0 <= i < g.groups.len() ==> is_segment(#[trigger] g.groups[i].name) && well_named(
            g.groups[i],
        )
}

proof fn lemma_joined_assoc(p: Seq<char>, c: Seq<char>, y: Seq<char>)
    requires
        c.len() > 0,
    ensures
        joined(joined(p, c), y) == joined(p, c + seq!['.'] + y),
{
    if p.len() == 0 {
        assert(joined(p, c) == c);
    } else {
        assert(joined(p, c) + seq!['.'] + y =~= p + seq!['.'] + (c + seq!['.'] + y));
    }
}

proof fn lemma_listed_resolves(g: GroupModel, p: Seq<char>, x: Seq<char>)
    requires
        well_named(g),
        listing(g, p).contains(x),
    ensures
        exists|y: Seq<char>| x == joined(p, y) && #[trigger] lookup(g, y) is Some,
    decreases g, g.groups.len() + 1,
{
    let front = listing_groups(g, p, g.groups.len() as int);
    let back = g.scenarios.map_values(|s: Seq<char>| joined(p, s));
    let k = choose|k: int| 0 <= k < listing(g, p).len() && listing(g, p)[k] == x;
    if k < front.len() {
        assert(front[k] == x);
        lemma_listed_groups_resolve(g, p, g.groups.len() as int, x);
    } else {
        let i = k - front.len();
        assert(back[i] == x);
        let s = g.scenarios[i];
        assert(is_segment(s));
        lemma_single_segment_is_direct(g, s);
        assert(g.scenarios.contains(s));
        assert(x == joined(p, s) && lookup(g, s) is Some);
    }
}

proof fn lemma_listed_groups_resolve(g: GroupModel, p: Seq<char>, n: int, x: Seq<char>)
    requires
        well_named(g),
        0 <= n <= g.groups.len(),
        listing_groups(g, p, n).contains(x),
    ensures
        exists|y: Seq<char>| x == joined(p, y) && #[trigger] lookup(g, y) is Some,
    decreases g, n,
{
    if n > 0 {
        let c = g.groups[n - 1];
        let earlier = listing_groups(g, p, n - 1);
        let last = listing(c, joined(p, c.name));
        let k = choose|k: int|
            0 <= k < listing_groups(g, p, n).len() && listing_groups(g, p, n)[k] == x;
        if k < earlier.len() {
            assert(earlier[k] == x);
            lemma_listed_groups_resolve(g, p, n - 1, x);
        } else {
            assert(last[k - earlier.len()] == x);
            assert(is_segment(c.name) && well_named(c));
            assert(decreases_to!(g => c)) by {
                vstd::seq::axiom_seq_index_decreases(g.groups, n - 1);
            }
            lemma_listed_resolves(c, joined(p, c.name), x);
            let y1 = choose|y1: Seq<char>| x == joined(joined(p, c.name), y1) && #[trigger] lookup(
                c,
                y1,
            ) is Some;
            lemma_joined_assoc(p, c.name, y1);
            lemma_group_from_distinct(g.groups, n - 1, 0);
            lemma_multi_segment_goes_through_group(g, c.name, y1);
            assert(lookup(g, c.name + seq!['.'] + y1) is Some);
        }
    }
}

/// In a tree whose names are segments and whose sibling groups are named
/// apart, every name in the listing designates a scenario.
pub proof fn lemma_listed_names_resolve(g: GroupModel, x: Seq<char>)
    requires
        well_named(g),
        listing(g, Seq::empty()).contains(x),
    ensures
        lookup(g, x) is Some,
{
    lemma_listed_resolves(g, Seq::empty(), x);
    let y = choose|y: Seq<char>| x == joined(Seq::empty(), y) && #[trigger] lookup(g, y) is Some;
    assert(joined(Seq::empty(), y) == y);
}

/// Error message for a name that designates no scenario.
pub open spec fn not_found_message(name: Seq<char>) -> Seq<char> {
    "Scenario "@ + name + " not found"@
}

fn join_name(left: &str, right: &str) -> (r: String)
    ensures
        r@ == joined(left@, right@),
{
    if !left.is_empty() {
        let mut s = String::from_str(left);
        s.append(".");
        s.append(right);
        proof {
            reveal_strlit(".");
        }
        s
    } else {
        right.to_string()
    }
}

/// Qualified names under the group of shape `m` whose subgroups are `groups`
/// and whose scenarios are `scenarios`.
fn list_members(
    groups: &Vec<ScenarioGroupImpl>,
    scenarios: &Vec<String>,
    prefix: String,
    Ghost(m): Ghost<GroupModel>,
) -> (r: Vec<String>)
    requires
        groups@.len() == m.groups.len(),
        forall|j: int| 0 <= j < groups@.len() ==> #[trigger] groups@[j].shape() == m.groups[j],
        scenarios.deep_view() == m.scenarios,
    ensures
        r.deep_view() == listing(m, prefix@),
    decreases m,
{
    let mut names: Vec<String> = Vec::new();

    let mut i: usize = 0;
    while i < groups.len()
        invariant
            groups@.len() == m.groups.len(),
            forall|j: int|
                0 <= j < groups@.len() ==> #[trigger] groups@[j].shape() == m.groups[j],
            0 <= i <= groups@.len(),
            names.deep_view() == listing_groups(m, prefix@, i as int),
        decreases groups@.len() - i,
    {
        let child: &ScenarioGroupImpl = &groups[i];
        proof {
            assert(decreases_to!(m => m.groups[i as int])) by {
                vstd::seq::axiom_seq_index_decreases(m.groups, i as int);
            }
        }
        let new_prefix = join_name(prefix.as_str(), child.name());
        let mut result = list_members(
            child.groups(),
            child.scenario_names(),
            new_prefix,
            Ghost(m.groups[i as int]),
        );
        names.append(&mut result);
        i = i + 1;
    }

    let mut i: usize = 0;
    while i < scenarios.len()
        invariant
            scenarios.deep_view() == m.scenarios,
            0 <= i <= scenarios@.len(),
            names.deep_view() == listing_groups(m, prefix@, groups@.len() as int)
                + m.scenarios.take(i as int).map_values(
                |s: Seq<char>| joined(prefix@, s),
            ),
        decreases scenarios@.len() - i,
    {
        let scenario_name = join_name(prefix.as_str(), scenarios[i].as_str());
        let ghost before = names.deep_view();
        names.push(scenario_name);
        proof {
            assert(names.deep_view() =~= before.push(scenario_name@));
            assert(m.scenarios.take(i + 1) =~= m.scenarios.take(i as int).push(m.scenarios[i as int]));
            assert(m.scenarios.take(i + 1).map_values(|s: Seq<char>| joined(prefix@, s))
                =~= m.scenarios.take(i as int).map_values(|s: Seq<char>| joined(prefix@, s)).push(
                joined(prefix@, m.scenarios[i as int]),
            ));
        }
        i = i + 1;
    }
    assert(m.scenarios.take(scenarios@.len() as int) =~= m.scenarios);

    names
}

fn list_scenarios_recursive<G: ScenarioGroup + ?Sized>(group: &G, prefix: String) -> (r: Vec<String>)
    ensures
        r.deep_view() == listing(group.model(), prefix@),
{
    list_members(group.groups(), group.scenario_names(), prefix, Ghost(group.model()))
}

/// Test context. Responsible for listing and running scenarios.
pub struct TestContext<G: ScenarioGroup + ?Sized = dyn ScenarioGroup> {
    root_group: Box<G>,
}

impl<G: ScenarioGroup + ?Sized> TestContext<G> {
    /// Shape of the root group.
    pub closed spec fn root(&self) -> GroupModel {
        self.root_group.model()
    }

    /// The root group's `target_items`.
    pub closed spec fn target_items(&self, q: Seq<char>) -> Seq<Box<dyn Scenario>> {
        self.root_group.target_items(q)
    }

    /// The root group's `target_index`.
    pub closed spec fn target_index(&self, q: Seq<char>) -> int {
        self.root_group.target_index(q)
    }

    /// Create test context.
    ///
    /// * `root_group` - Root test scenario group.
    pub fn new(root_group: Box<G>) -> (r: Self)
        ensures
            r.root() == root_group.model(),
            forall|q: Seq<char>|
                #[trigger] r.target_items(q) == root_group.target_items(q) && r.target_index(q)
                    == root_group.target_index(q),
    {
        TestContext { root_group }
    }

    /// Scenario that `name` designates in the root group, or the error that
    /// reports it missing.
    pub fn resolve(&self, name: &str) -> (r: Result<&Box<dyn Scenario>, String>)
        ensures
            match r {
                Ok(s) => {
                    &&& lookup(self.root(), name@) == Some(s.spec_name())
                    &&& *s == self.target_items(name@)[self.target_index(name@)]
                },
                Err(e) => lookup(self.root(), name@) is None && e@ == not_found_message(name@),
            },
    {
        match self.root_group.find_scenario(name) {
            Some(scenario) => Ok(scenario),
            None => {
                let mut message = String::from_str("Scenario ");
                message.append(name);
                message.append(" not found");
                Err(message)
            },
        }
    }

    /// Run test scenario.
    ///
    /// * `name` - Name of the scenario to run.
    /// * `input` - Test scenario input.
    ///
    /// A name that designates no scenario gives the not-found error; otherwise
    /// the scenario that `resolve` gives is run on `input` and its result is
    /// passed through unchanged.
    pub fn run(&self, name: &str, input: Option<String>) -> (r: Result<(), String>)
        ensures
            lookup(self.root(), name@) is None ==> (r matches Err(e) && e@ == not_found_message(
                name@,
            )),
            lookup(self.root(), name@) is Some ==> self.target_items(name@)[self.target_index(
                name@,
            )].may_return(opt_view(input), result_view(r)),
    {
        match self.resolve(name) {
            Ok(scenario) => scenario.run(input),
            Err(e) => Err(e),
        }
    }

    /// List available scenarios.
    pub fn list_scenarios(&self) -> (r: Vec<String>)
        ensures
            r.deep_view() == listing(self.root(), Seq::empty()),
    {
        list_scenarios_recursive(&*self.root_group, String::new())
    }
}

} // verus!
