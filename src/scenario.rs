use vstd::prelude::*;

verus! {

/// Shape of a scenario group as lookups and listings see it: the group's own
/// name, the names of its direct scenarios in order, and the shapes of its
/// direct subgroups in order.
pub struct GroupModel {
    pub name: Seq<char>,
    pub scenarios: Seq<Seq<char>>,
    pub groups: Seq<GroupModel>,
}

/// Index of the first `.` in `q` at or after `i`, or `q.len()` if there is none.
pub open spec fn dot_from(q: Seq<char>, i: int) -> int
    decreases q.len() - i,
{
    if i >= q.len() {
        q.len() as int
    } else if q[i] == '.' {
        i
    } else {
        dot_from(q, i + 1)
    }
}

/// Index of the first `.` in `q`, or `q.len()` if there is none.
pub open spec fn first_dot(q: Seq<char>) -> int {
    dot_from(q, 0)
}

/// Index of the first group in `gs` at or after `i` whose name is `name`.
pub open spec fn group_from(gs: Seq<GroupModel>, name: Seq<char>, i: int) -> Option<int>
    decreases gs.len() - i,
{
    if i < 0 || i >= gs.len() {
        None
    } else if gs[i].name == name {
        Some(i)
    } else {
        group_from(gs, name, i + 1)
    }
}

/// Index of the first name in `ns` at or after `i` that equals `name`.
pub open spec fn name_from(ns: Seq<Seq<char>>, name: Seq<char>, i: int) -> Option<int>
    decreases ns.len() - i,
{
    if i < 0 || i >= ns.len() {
        None
    } else if ns[i] == name {
        Some(i)
    } else {
        name_from(ns, name, i + 1)
    }
}

/// The part of the dotted name `q` after its last dot, or `q` itself when it
/// holds no dot.
pub open spec fn last_segment(q: Seq<char>) -> Seq<char>
    decreases q.len(),
{
    let k = first_dot(q);
    if 0 <= k < q.len() {
        last_segment(q.skip(k + 1))
    } else {
        q
    }
}

/// Resolves the dotted name `q` in group `g`, giving the name of the scenario
/// it designates. A name without a dot designates a direct scenario of `g`; a
/// name `head.rest` designates what `rest` designates in the first direct
/// subgroup named `head`. The empty name designates nothing.
pub open spec fn lookup(g: GroupModel, q: Seq<char>) -> Option<Seq<char>>
    decreases q.len(),
{
    let k = first_dot(q);
    if q.len() == 0 {
        None
    } else if k >= q.len() {
        if g.scenarios.contains(q) {
            Some(q)
        } else {
            None
        }
    } else if 0 <= k {
        match group_from(g.groups, q.take(k), 0) {
            Some(j) => if 0 <= j < g.groups.len() && k + 1 <= q.len() {
                lookup(g.groups[j], q.skip(k + 1))
            } else {
                None
            },
            None => None,
        }
    } else {
        None
    }
}

proof fn lemma_dot_from_none(q: Seq<char>, i: int)
    requires
        0 <= i <= q.len(),
        forall|j: int| i <= j < q.len() ==> q[j] != '.',
    ensures
        dot_from(q, i) == q.len(),
    decreases q.len() - i,
{
    if i < q.len() {
        lemma_dot_from_none(q, i + 1);
    }
}

proof fn lemma_dot_from_at(q: Seq<char>, i: int, k: int)
    requires
        0 <= i <= k < q.len(),
        q[k] == '.',
        forall|j: int| i <= j < k ==> q[j] != '.',
    ensures
        dot_from(q, i) == k,
    decreases k - i,
{
    if i < k {
        lemma_dot_from_at(q, i + 1, k);
    }
}

/// A name without a dot designates a scenario only when a direct scenario of
/// the group carries exactly that name; subgroups are never searched.
pub proof fn lemma_single_segment_is_direct(g: GroupModel, q: Seq<char>)
    requires
        !q.contains('.'),
    ensures
        lookup(g, q) is Some <==> q.len() > 0 && g.scenarios.contains(q),
        lookup(g, q) is Some ==> lookup(g, q) == Some(q),
{
    assert forall|j: int| 0 <= j < q.len() implies q[j] != '.' by {
        if q[j] == '.' {
            assert(q.contains('.'));
        }
    }
    lemma_dot_from_none(q, 0);
}

/// A name `head.rest`, where `head` holds no dot, designates what `rest`
/// designates in the first direct subgroup named `head`, and nothing when
/// there is no such subgroup; the group's own scenarios play no part, even
/// one named `head.rest` itself.
pub proof fn lemma_multi_segment_goes_through_group(
    g: GroupModel,
    head: Seq<char>,
    rest: Seq<char>,
)
    requires
        !head.contains('.'),
    ensures
        lookup(g, head + seq!['.'] + rest) == match group_from(g.groups, head, 0) {
            Some(j) => lookup(g.groups[j], rest),
            None => None::<Seq<char>>,
        },
        lookup(g, head + seq!['.'] + rest) == lookup(
            GroupModel { scenarios: Seq::empty(), ..g },
            head + seq!['.'] + rest,
        ),
{
    let q = head + seq!['.'] + rest;
    let k = head.len() as int;
    assert forall|j: int| 0 <= j < k implies q[j] != '.' by {
        assert(q[j] == head[j]);
        if head[j] == '.' {
            assert(head.contains('.'));
        }
    }
    lemma_dot_from_at(q, 0, k);
    assert(q.take(k) =~= head);
    assert(q.skip(k + 1) =~= rest);
    lemma_group_from_in_range(g.groups, head, 0);
}

/// A group found by name is in range and carries that name.
pub proof fn lemma_group_from_in_range(gs: Seq<GroupModel>, name: Seq<char>, i: int)
    ensures
        group_from(gs, name, i) matches Some(j) ==> 0 <= j < gs.len() && gs[j].name == name,
    decreases gs.len() - i,
{
    if 0 <= i < gs.len() && gs[i].name != name {
        lemma_group_from_in_range(gs, name, i + 1);
    }
}

/// A name that designates a scenario designates one named after its last
/// segment.
pub proof fn lemma_found_name_is_last_segment(g: GroupModel, q: Seq<char>)
    ensures
        lookup(g, q) matches Some(n) ==> n == last_segment(q),
    decreases q.len(),
{
    let k = first_dot(q);
    if q.len() > 0 && 0 <= k < q.len() {
        lemma_group_from_in_range(g.groups, q.take(k), 0);
        if let Some(j) = group_from(g.groups, q.take(k), 0) {
            lemma_found_name_is_last_segment(g.groups[j], q.skip(k + 1));
        }
    }
}

/// Among groups with distinct names, the search by name finds the one group
/// that carries it.
pub proof fn lemma_group_from_distinct(gs: Seq<GroupModel>, j: int, i: int)
    requires
        0 <= i <= j < gs.len(),
        forall|a: int, b: int|
            0 <= a < gs.len() && 0 <= b < gs.len() && a != b ==> gs[a].name != gs[b].name,
    ensures
        group_from(gs, gs[j].name, i) == Some(j),
    decreases j - i,
{
    if i < j {
        assert(gs[i].name != gs[j].name);
        lemma_group_from_distinct(gs, j, i + 1);
    }
}

/// The empty name designates no scenario, whatever the group.
pub proof fn lemma_empty_name_not_found(g: GroupModel)
    ensures
        lookup(g, Seq::empty()) is None,
{
}

/// A named, runnable unit of test logic.
///
/// A scenario's name is read once, when the scenario is put in a group, and
/// must not change afterwards.
pub trait Scenario {
    /// The scenario's own, unqualified name. Verified implementations define
    /// it; for others it stands for whatever `name` returns.
    closed spec fn spec_name(&self) -> Seq<char> {
        vstd::pervasive::arbitrary()
    }

    /// Get scenario name.
    fn name(&self) -> (r: &str)
        ensures
            r@ == self.spec_name(),
    ;

    /// Whether `result` is an outcome the scenario may give for `input`. The
    /// default allows every outcome.
    closed spec fn may_return(
        &self,
        input: Option<Seq<char>>,
        result: Result<(), Seq<char>>,
    ) -> bool {
        true
    }

    /// Run test scenario.
    ///
    /// * `input` - Test scenario input.
    fn run(&self, input: Option<String>) -> (r: Result<(), String>)
        ensures
            self.may_return(opt_view(input), result_view(r)),
    ;
}

/// An optional string as optional characters.
pub open spec fn opt_view(o: Option<String>) -> Option<Seq<char>> {
    match o {
        Some(s) => Some(s@),
        None => None,
    }
}

/// A result whose error is a string, with the error as characters.
pub open spec fn result_view(r: Result<(), String>) -> Result<(), Seq<char>> {
    match r {
        Ok(()) => Ok(()),
        Err(e) => Err(e@),
    }
}

/// A named group of scenarios and of further groups.
///
/// Subgroups are `ScenarioGroupImpl` values: a contract of this trait cannot
/// speak of objects of this same trait.
pub trait ScenarioGroup {
    /// The group's shape.
    spec fn model(&self) -> GroupModel;

    /// The group's direct scenarios, in order.
    spec fn items(&self) -> Seq<Box<dyn Scenario>>;

    /// The group's direct subgroups, in order.
    spec fn subgroups(&self) -> Seq<ScenarioGroupImpl>;

    /// The direct scenarios of the group in which the dotted name `q` ends:
    /// this group for a name without a dot, and for `head.rest` the one in
    /// which `rest` ends within the first direct subgroup named `head`.
    spec fn target_items(&self, q: Seq<char>) -> Seq<Box<dyn Scenario>>;

    /// Position, among `target_items(q)`, of the first scenario recorded under
    /// the last segment of `q`.
    spec fn target_index(&self, q: Seq<char>) -> int;

    /// Get scenario group name.
    fn name(&self) -> (r: &str)
        ensures
            r@ == self.model().name,
    ;

    /// List groups from this group.
    fn groups(&self) -> (r: &Vec<ScenarioGroupImpl>)
        ensures
            r@ == self.subgroups(),
            r@.len() == self.model().groups.len(),
            forall|i: int| 0 <= i < r@.len() ==> #[trigger] r@[i].shape() == self.model().groups[i],
    ;

    /// List scenarios from this group.
    fn scenarios(&self) -> (r: &Vec<Box<dyn Scenario>>)
        ensures
            r@ == self.items(),
            r@.len() == self.model().scenarios.len(),
            forall|i: int|
                0 <= i < r@.len() ==> #[trigger] r@[i].spec_name() == self.model().scenarios[i],
    ;

    /// Names of the scenarios of this group, in the same order.
    fn scenario_names(&self) -> (r: &Vec<String>)
        ensures
            r.deep_view() == self.model().scenarios,
    ;

    /// Find scenario by name.
    ///
    /// * `name` - Name of the scenario to find.
    fn find_scenario(&self, name: &str) -> (r: Option<&Box<dyn Scenario>>)
        ensures
            r is Some <==> lookup(self.model(), name@) is Some,
            r matches Some(s) ==> {
                &&& *s == self.target_items(name@)[self.target_index(name@)]
                &&& lookup(self.model(), name@) == Some(s.spec_name())
            },
    ;
}

/// Common scenario group definition.
pub struct ScenarioGroupImpl {
    name: String,
    scenarios: Vec<Box<dyn Scenario>>,
    scenario_names: Vec<String>,
    groups: Vec<ScenarioGroupImpl>,
}

impl ScenarioGroupImpl {
    /// Each scenario has its own name recorded.
    #[verifier::type_invariant]
    spec fn names_recorded(&self) -> bool {
        &&& self.scenario_names@.len() == self.scenarios@.len()
        &&& forall|i: int|
            0 <= i < self.scenarios@.len() ==> #[trigger] self.scenario_names@[i]@
                == self.scenarios@[i].spec_name()
    }

    /// The group in which the dotted name `q` ends: this group for a name
    /// without a dot, and for `head.rest` the group in which `rest` ends within
    /// the first direct subgroup named `head`.
    pub closed spec fn holder(&self, q: Seq<char>) -> ScenarioGroupImpl
        decreases q.len(),
    {
        let k = first_dot(q);
        if 0 <= k < q.len() {
            let j = group_from(self.shape().groups, q.take(k), 0)->0;
            if 0 <= j < self.groups@.len() {
                self.groups@[j].holder(q.skip(k + 1))
            } else {
                *self
            }
        } else {
            *self
        }
    }

    /// Position of the first direct scenario recorded under `name`.
    pub closed spec fn first_named(&self, name: Seq<char>) -> int {
        name_from(self.scenario_names.deep_view(), name, 0)->0
    }

    /// The group's shape.
    pub closed spec fn shape(&self) -> GroupModel
        decreases self,
    {
        GroupModel {
            name: self.name@,
            scenarios: self.scenario_names.deep_view(),
            groups: Seq::new(
                self.groups@.len(),
                |i: int|
                    if 0 <= i < self.groups@.len() {
                        self.groups@[i].shape()
                    } else {
                        self.name_only()
                    },
            ),
        }
    }

    spec fn name_only(&self) -> GroupModel {
        GroupModel { name: self.name@, scenarios: Seq::empty(), groups: Seq::empty() }
    }

    /// Create common scenario group definition.
    ///
    /// * `name` - Name of the scenario group.
    /// * `scenarios` - Scenarios in this group.
    /// * `groups` - Groups in this group.
    pub fn new(name: &str, scenarios: Vec<Box<dyn Scenario>>, groups: Vec<ScenarioGroupImpl>) -> (r:
        Self)
        ensures
            r.shape().name == name@,
            r.items() == scenarios@,
            r.subgroups() == groups@,
            r.shape().scenarios.len() == scenarios@.len(),
            forall|i: int|
                0 <= i < scenarios@.len() ==> #[trigger] r.shape().scenarios[i]
                    == scenarios@[i].spec_name(),
            r.shape().groups.len() == groups@.len(),
            forall|i: int| 0 <= i < groups@.len() ==> #[trigger] r.shape().groups[i] == groups@[i].shape(),
    {
        let mut scenario_names: Vec<String> = Vec::new();
        let mut i: usize = 0;
        while i < scenarios.len()
            invariant
                0 <= i <= scenarios@.len(),
                scenario_names@.len() == i,
                forall|j: int|
                    0 <= j < i ==> #[trigger] scenario_names@[j]@ == scenarios@[j].spec_name(),
            decreases scenarios@.len() - i,
        {
            scenario_names.push(scenarios[i].name().to_string());
            i = i + 1;
        }
        let r = ScenarioGroupImpl { name: name.to_string(), scenarios, scenario_names, groups };
        assert(r.shape().scenarios =~= r.scenarios@.map_values(|s: Box<dyn Scenario>| s.spec_name()));
        r
    }
}

/// Whether two strings hold the same characters.
pub(crate) fn same_str(a: &str, b: &str) -> (r: bool)
    ensures
        r == (a@ == b@),
{
    let n = a.unicode_len();
    if n != b.unicode_len() {
        return false;
    }
    let mut i: usize = 0;
    while i < n
        invariant
            n == a@.len(),
            n == b@.len(),
            0 <= i <= n,
            forall|j: int| 0 <= j < i ==> a@[j] == b@[j],
        decreases n - i,
    {
        if a.get_char(i) != b.get_char(i) {
            return false;
        }
        i = i + 1;
    }
    assert(a@ =~= b@);
    true
}

/// Position of the first `.` in `q`, or its length if it has none.
fn find_dot(q: &str) -> (r: usize)
    ensures
        r as int == first_dot(q@),
        r <= q@.len(),
{
    let n = q.unicode_len();
    let mut i: usize = 0;
    while i < n
        invariant
            n == q@.len(),
            0 <= i <= n,
            dot_from(q@, i as int) == first_dot(q@),
        decreases n - i,
    {
        if q.get_char(i) == '.' {
            return i;
        }
        i = i + 1;
    }
    i
}

impl ScenarioGroup for ScenarioGroupImpl {
    open spec fn model(&self) -> GroupModel {
        self.shape()
    }

    closed spec fn items(&self) -> Seq<Box<dyn Scenario>> {
        self.scenarios@
    }

    closed spec fn subgroups(&self) -> Seq<ScenarioGroupImpl> {
        self.groups@
    }

    closed spec fn target_items(&self, q: Seq<char>) -> Seq<Box<dyn Scenario>> {
        self.holder(q).scenarios@
    }

    closed spec fn target_index(&self, q: Seq<char>) -> int {
        self.holder(q).first_named(last_segment(q))
    }

    fn name(&self) -> (r: &str) {
        self.name.as_str()
    }

    fn groups(&self) -> (r: &Vec<ScenarioGroupImpl>) {
        &self.groups
    }

    fn scenarios(&self) -> (r: &Vec<Box<dyn Scenario>>) {
        proof {
            use_type_invariant(self);
        }
        &self.scenarios
    }

    fn scenario_names(&self) -> (r: &Vec<String>) {
        &self.scenario_names
    }

    fn find_scenario(&self, name: &str) -> (r: Option<&Box<dyn Scenario>>) {
        self.find_in(name)
    }
}

impl ScenarioGroupImpl {
    /// Resolves `name` in this group, as `ScenarioGroup::find_scenario` does.
    fn find_in(&self, name: &str) -> (r: Option<&Box<dyn Scenario>>)
        ensures
            r is Some <==> lookup(self.shape(), name@) is Some,
            r matches Some(s) ==> {
                &&& *s == self.holder(name@).scenarios@[self.holder(name@).first_named(
                    last_segment(name@),
                )]
                &&& lookup(self.shape(), name@) == Some(s.spec_name())
            },
        decreases name@.len(),
    {
        proof {
            use_type_invariant(self);
        }
        let n = name.unicode_len();
        if n == 0 {
            return None;
        }
        let k = find_dot(name);
        if k == n {
            let names = &self.scenario_names;
            let mut i: usize = 0;
            while i < names.len()
                invariant
                    n == name@.len(),
                    n > 0,
                    k == n,
                    k as int == first_dot(name@),
                    names@.len() == self.scenarios@.len(),
                    names.deep_view() == self.shape().scenarios,
                    0 <= i <= names@.len(),
                    forall|j: int| 0 <= j < i ==> names@[j]@ != name@,
                    name_from(names.deep_view(), name@, i as int) == name_from(
                        names.deep_view(),
                        name@,
                        0,
                    ),
                decreases names@.len() - i,
            {
                if same_str(names[i].as_str(), name) {
                    assert(self.shape().scenarios[i as int] == name@);
                    assert(self.shape().scenarios.contains(name@));
                    assert(lookup(self.shape(), name@) == Some(name@));
                    assert(name_from(names.deep_view(), name@, i as int) == Some(i as int));
                    assert(self.holder(name@) == *self);
                    assert(last_segment(name@) == name@);
                    assert(self.first_named(name@) == i);
                    proof {
                        use_type_invariant(self);
                    }
                    assert(self.scenario_names@[i as int]@ == self.scenarios@[i as int].spec_name());
                    return Some(&self.scenarios[i]);
                }
                i = i + 1;
            }
            assert(!self.shape().scenarios.contains(name@)) by {
                if self.shape().scenarios.contains(name@) {
                    let j = choose|j: int|
                        0 <= j < self.shape().scenarios.len() && self.shape().scenarios[j]
                            == name@;
                    assert(names@[j]@ == name@);
                }
            }
            None
        } else {
            let head = name.substring_char(0, k);
            let rest = name.substring_char(k + 1, n);
            assert(head@ =~= name@.take(k as int));
            assert(rest@ =~= name@.skip(k + 1));
            let mut i: usize = 0;
            while i < self.groups.len()
                invariant
                    n == name@.len(),
                    n > 0,
                    k < n,
                    k as int == first_dot(name@),
                    head@ == name@.take(k as int),
                    rest@ == name@.skip(k + 1),
                    0 <= i <= self.groups@.len(),
                    group_from(self.shape().groups, head@, i as int) == group_from(
                        self.shape().groups,
                        head@,
                        0,
                    ),
                decreases self.groups@.len() - i,
            {
                if same_str(self.groups[i].name(), head) {
                    assert(self.shape().groups[i as int] == self.groups@[i as int].shape());
                    assert(group_from(self.shape().groups, head@, i as int) == Some(i as int));
                    assert(lookup(self.shape(), name@) == lookup(
                        self.groups@[i as int].shape(),
                        rest@,
                    ));
                    proof {
                        lemma_group_from_in_range(self.shape().groups, head@, 0);
                    }
                    assert(self.holder(name@) == self.groups@[i as int].holder(rest@));
                    assert(last_segment(name@) == last_segment(rest@));
                    return self.groups[i].find_in(rest);
                }
                assert(self.shape().groups[i as int] == self.groups@[i as int].shape());
                i = i + 1;
            }
            None
        }
    }
}

} // verus!
