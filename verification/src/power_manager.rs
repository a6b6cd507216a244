use crate::command::{Invocation, InvocationView};
use crate::config::{get_power_commands_of, power_entry, ClusterConfig};
use crate::node::Node;
use crate::power_action::{PowerAction, PowerActionView, Type};
use crate::power_action_set::{outcome, PowerActionSet};
use vstd::prelude::*;

verus! {

/// The call that a power command stands for.
pub open spec fn power_call(entry: Result<PowerActionView, Seq<char>>) -> Result<
    InvocationView,
    Seq<char>,
> {
    match entry {
        Ok(action) => Ok(
            InvocationView { program: action.command, arguments: action.arguments, directory: None },
        ),
        Err(reason) => Err(reason),
    }
}

/// What a call, or the reason for its absence, holds.
pub open spec fn call_outcome(r: Result<Invocation, String>) -> Result<InvocationView, Seq<char>> {
    match r {
        Ok(invocation) => Ok(invocation@),
        Err(reason) => Err(reason@),
    }
}

/// The call that does the given thing to a node's power, or the reason why it
/// cannot be done.
pub fn execute(powerset: PowerActionSet, action: &Type) -> (r: Result<Invocation, String>)
    ensures
        call_outcome(r) == power_call(powerset.entry(*action)),
{
    match powerset.get(action) {
        Ok(power_action) => Ok(power_action.execute()),
        Err(reason) => Err(reason),
    }
}

/// The entry of the configuration for one thing that can be done to the power
/// of a node.
pub open spec fn configured(config: &ClusterConfig, node: &Node, action: Type) -> Result<
    PowerActionView,
    Seq<char>,
> {
    let missing = match action {
        Type::ON => "no on command"@,
        Type::OFF => "no off command"@,
        Type::REBOOT => "no reboot command"@,
    };
    match config.settings(node@.id) {
        Some(settings) => power_entry(
            match action {
                Type::ON => settings.power_on,
                Type::OFF => settings.power_off,
                Type::REBOOT => settings.power_reboot,
            },
            action,
            missing,
        ),
        None => Err(missing),
    }
}

/// The call that switches a node off.
pub fn power_off(config: &ClusterConfig, node: &Node) -> (r: Result<Invocation, String>)
    ensures
        call_outcome(r) == power_call(configured(config, node, Type::OFF)),
{
    execute(get_power_commands_of(config, node), &Type::OFF)
}

/// The call that switches a node on.
pub fn power_on(config: &ClusterConfig, node: &Node) -> (r: Result<Invocation, String>)
    ensures
        call_outcome(r) == power_call(configured(config, node, Type::ON)),
{
    execute(get_power_commands_of(config, node), &Type::ON)
}

/// The call that starts a node anew.
pub fn reboot(config: &ClusterConfig, node: &Node) -> (r: Result<Invocation, String>)
    ensures
        call_outcome(r) == power_call(configured(config, node, Type::REBOOT)),
{
    execute(get_power_commands_of(config, node), &Type::REBOOT)
}

} // verus!
