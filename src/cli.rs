use crate::scenario::{opt_view, same_str};
use vstd::prelude::*;

verus! {

/// Test scenario arguments.
pub struct ScenarioArguments {
    /// Test scenario name.
    pub name: Option<String>,
    /// Test scenario input.
    pub input: Option<String>,
}

/// CLI arguments.
pub struct CliArguments {
    /// Test scenario arguments.
    pub scenario_arguments: ScenarioArguments,
    /// List scenarios.
    pub list_scenarios: bool,
    /// Show help.
    pub help: bool,
}

/// What a command line asks for, as plain values.
pub struct CliModel {
    pub name: Option<Seq<char>>,
    pub input: Option<Seq<char>>,
    pub list_scenarios: bool,
    pub help: bool,
}

impl View for CliArguments {
    type V = CliModel;

    open spec fn view(&self) -> CliModel {
        CliModel {
            name: opt_view(self.scenario_arguments.name),
            input: opt_view(self.scenario_arguments.input),
            list_scenarios: self.list_scenarios,
            help: self.help,
        }
    }
}

/// Nothing requested yet.
pub open spec fn no_arguments() -> CliModel {
    CliModel { name: None, input: None, list_scenarios: false, help: false }
}

pub open spec fn is_name_flag(a: Seq<char>) -> bool {
    a == "-n"@ || a == "--name"@
}

pub open spec fn is_input_flag(a: Seq<char>) -> bool {
    a == "-i"@ || a == "--input"@
}

pub open spec fn is_list_flag(a: Seq<char>) -> bool {
    a == "-l"@ || a == "--list-scenarios"@
}

pub open spec fn is_help_flag(a: Seq<char>) -> bool {
    a == "-h"@ || a == "--help"@
}

/// Reads `args` from position `i` on, starting from what `acc` already holds.
/// A flag that takes a value consumes the next argument; a later value
/// replaces an earlier one.
pub open spec fn parse_from(args: Seq<Seq<char>>, i: int, acc: CliModel) -> Result<
    CliModel,
    Seq<char>,
>
    decreases args.len() - i,
{
    if i < 0 || i >= args.len() {
        Ok(acc)
    } else {
        let a = args[i];
        if is_name_flag(a) {
            if i + 1 < args.len() {
                parse_from(args, i + 2, CliModel { name: Some(args[i + 1]), ..acc })
            } else {
                Err("Failed to read name parameter"@)
            }
        } else if is_input_flag(a) {
            if i + 1 < args.len() {
                parse_from(args, i + 2, CliModel { input: Some(args[i + 1]), ..acc })
            } else {
                Err("Failed to read input parameter"@)
            }
        } else if is_list_flag(a) {
            parse_from(args, i + 1, CliModel { list_scenarios: true, ..acc })
        } else if is_help_flag(a) {
            parse_from(args, i + 1, CliModel { help: true, ..acc })
        } else {
            Err("Unknown argument provided: "@ + a)
        }
    }
}

/// The meaning of a whole command line; its first argument, the executable's
/// name, is skipped.
pub open spec fn parse_args(args: Seq<Seq<char>>) -> Result<CliModel, Seq<char>> {
    parse_from(args, 1, no_arguments())
}

pub open spec fn views(v: Seq<String>) -> Seq<Seq<char>> {
    v.map_values(|s: String| s@)
}

/// Parse CLI arguments.
///
/// * `raw_arguments` - Collected arguments, the executable's name first.
pub fn parse_cli_arguments(raw_arguments: &[String]) -> (r: Result<CliArguments, String>)
    ensures
        match r {
            Ok(a) => parse_args(views(raw_arguments@)) == Ok::<CliModel, Seq<char>>(a@),
            Err(e) => parse_args(views(raw_arguments@)) == Err::<CliModel, Seq<char>>(e@),
        },
{
    let ghost args = views(raw_arguments@);
    let mut cli_arguments = CliArguments {
        scenario_arguments: ScenarioArguments { name: None, input: None },
        list_scenarios: false,
        help: false,
    };
    let n = raw_arguments.len();
    let mut i: usize = 1;
    while i < n
        invariant
            n == raw_arguments@.len(),
            args == views(raw_arguments@),
            1 <= i,
            parse_from(args, i as int, cli_arguments@) == parse_args(args),
        decreases n - i,
    {
        let arg = raw_arguments[i].as_str();
        assert(arg@ == args[i as int]);
        if same_str(arg, "-n") || same_str(arg, "--name") {
            if i + 1 < n {
                cli_arguments.scenario_arguments.name = Some(raw_arguments[i + 1].clone());
                i = i + 2;
            } else {
                return Err(String::from_str("Failed to read name parameter"));
            }
        } else if same_str(arg, "-i") || same_str(arg, "--input") {
            if i + 1 < n {
                cli_arguments.scenario_arguments.input = Some(raw_arguments[i + 1].clone());
                i = i + 2;
            } else {
                return Err(String::from_str("Failed to read input parameter"));
            }
        } else if same_str(arg, "-l") || same_str(arg, "--list-scenarios") {
            cli_arguments.list_scenarios = true;
            i = i + 1;
        } else if same_str(arg, "-h") || same_str(arg, "--help") {
            cli_arguments.help = true;
            i = i + 1;
        } else {
            let mut message = String::from_str("Unknown argument provided: ");
            message.append(arg);
            return Err(message);
        }
    }
    Ok(cli_arguments)
}

/// What the runner does for a command line that was read successfully.
pub enum CliAction {
    /// Print the usage message.
    ShowHelp,
    /// Print every qualified scenario name.
    ListScenarios,
    /// Run the named scenario on the input.
    RunScenario { name: String, input: String },
}

/// A `CliAction` as plain values.
pub enum ActionModel {
    ShowHelp,
    ListScenarios,
    RunScenario { name: Seq<char>, input: Seq<char> },
}

impl View for CliAction {
    type V = ActionModel;

    open spec fn view(&self) -> ActionModel {
        match self {
            CliAction::ShowHelp => ActionModel::ShowHelp,
            CliAction::ListScenarios => ActionModel::ListScenarios,
            CliAction::RunScenario { name, input } => ActionModel::RunScenario {
                name: name@,
                input: input@,
            },
        }
    }
}

/// What the runner does for the request `m`: help comes before everything,
/// listing before running, and a run needs a non-empty name and an input.
pub open spec fn action_for(m: CliModel) -> Result<ActionModel, Seq<char>> {
    if m.help {
        Ok(ActionModel::ShowHelp)
    } else if m.list_scenarios {
        Ok(ActionModel::ListScenarios)
    } else {
        match m.name {
            None => Err("Test scenario name must be provided"@),
            Some(n) => if n.len() == 0 {
                Err("Test scenario name must not be empty"@)
            } else {
                match m.input {
                    None => Err("Test scenario input must be provided"@),
                    Some(i) => Ok(ActionModel::RunScenario { name: n, input: i }),
                }
            },
        }
    }
}

/// What the runner does for the command line `args`.
pub open spec fn plan_for(args: Seq<Seq<char>>) -> Result<ActionModel, Seq<char>> {
    match parse_args(args) {
        Ok(m) => action_for(m),
        Err(e) => Err(e),
    }
}

/// Decides what parsed arguments ask for.
///
/// * `cli_arguments` - Parsed CLI arguments.
pub fn select_action(cli_arguments: CliArguments) -> (r: Result<CliAction, String>)
    ensures
        match r {
            Ok(a) => action_for(cli_arguments@) == Ok::<ActionModel, Seq<char>>(a@),
            Err(e) => action_for(cli_arguments@) == Err::<ActionModel, Seq<char>>(e@),
        },
{
    if cli_arguments.help {
        return Ok(CliAction::ShowHelp);
    }
    if cli_arguments.list_scenarios {
        return Ok(CliAction::ListScenarios);
    }
    let scenario = cli_arguments.scenario_arguments;
    let name = match scenario.name {
        Some(n) => {
            if n.as_str().is_empty() {
                return Err(String::from_str("Test scenario name must not be empty"));
            }
            n
        },
        None => return Err(String::from_str("Test scenario name must be provided")),
    };
    match scenario.input {
        Some(input) => Ok(CliAction::RunScenario { name, input }),
        None => Err(String::from_str("Test scenario input must be provided")),
    }
}

/// Reads a command line and decides what it asks for.
///
/// * `raw_arguments` - Collected arguments, the executable's name first.
pub fn plan_cli(raw_arguments: &[String]) -> (r: Result<CliAction, String>)
    ensures
        match r {
            Ok(a) => plan_for(views(raw_arguments@)) == Ok::<ActionModel, Seq<char>>(a@),
            Err(e) => plan_for(views(raw_arguments@)) == Err::<ActionModel, Seq<char>>(e@),
        },
{
    match parse_cli_arguments(raw_arguments) {
        Ok(cli_arguments) => select_action(cli_arguments),
        Err(e) => Err(e),
    }
}

/// A command line that asks for help, and that reads without error, is
/// answered with help whatever else it holds: no name or input is needed.
pub proof fn lemma_help_needs_nothing_else(args: Seq<Seq<char>>)
    requires
        parse_args(args) matches Ok(m) && m.help,
    ensures
        plan_for(args) == Ok::<ActionModel, Seq<char>>(ActionModel::ShowHelp),
{
}

/// A command line that asks for the list and not for help is answered with
/// the list: no name or input is needed.
pub proof fn lemma_list_needs_nothing_else(args: Seq<Seq<char>>)
    requires
        parse_args(args) matches Ok(m) && !m.help && m.list_scenarios,
    ensures
        plan_for(args) == Ok::<ActionModel, Seq<char>>(ActionModel::ListScenarios),
{
}

/// Among requests to run, an empty name and a missing name are refused with
/// two different errors.
pub proof fn lemma_empty_name_differs_from_missing(empty: CliModel, missing: CliModel)
    requires
        !empty.help && !empty.list_scenarios && empty.name == Some(Seq::<char>::empty()),
        !missing.help && !missing.list_scenarios && missing.name is None,
    ensures
        action_for(empty) == Err::<ActionModel, Seq<char>>("Test scenario name must not be empty"@),
        action_for(missing) == Err::<ActionModel, Seq<char>>("Test scenario name must be provided"@),
        action_for(empty) != action_for(missing),
{
    reveal_strlit("Test scenario name must not be empty");
    reveal_strlit("Test scenario name must be provided");
    assert("Test scenario name must not be empty"@[24] != "Test scenario name must be provided"@[24]);
}

} // verus!
