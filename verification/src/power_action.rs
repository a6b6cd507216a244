use crate::command::{Invocation, InvocationView};
use crate::text::{clone_strings, split_whitespace, texts, words};
use vstd::prelude::*;

verus! {

/// What can be done to a node's power.
#[derive(Debug, Eq, PartialEq, Clone, Copy, Structural)]
pub enum Type {
    ON,
    OFF,
    REBOOT,
}

/// The command that does something to a node's power: a program and its
/// arguments.
#[derive(Debug)]
pub struct PowerAction {
    action: Type,
    command: String,
    arguments: Vec<String>,
}

/// What a power command holds.
pub struct PowerActionView {
    pub action: Type,
    pub command: Seq<char>,
    pub arguments: Seq<Seq<char>>,
}

impl View for PowerAction {
    type V = PowerActionView;

    closed spec fn view(&self) -> PowerActionView {
        PowerActionView {
            action: self.action,
            command: self.command@,
            arguments: texts(self.arguments@),
        }
    }
}

impl Clone for PowerAction {
    fn clone(&self) -> (r: Self)
        ensures
            r@ == self@,
    {
        PowerAction {
            action: self.action,
            command: self.command.clone(),
            arguments: clone_strings(&self.arguments),
        }
    }
}

impl PowerAction {
    /// Reads a command line: the first word is the program, the others are its
    /// arguments. A line without a word is refused.
    pub fn parse(action: Type, command: &str) -> (r: Result<Self, String>)
        ensures
            match r {
                Ok(power_action) => {
                    &&& words(command@).len() > 0
                    &&& power_action@ == (PowerActionView {
                        action,
                        command: words(command@)[0],
                        arguments: words(command@).skip(1),
                    })
                },
                Err(message) => {
                    &&& words(command@).len() == 0
                    &&& message@ == "Could not parse power command"@
                },
            },
    {
        let mut strings = split_whitespace(command);
        if strings.len() == 0 {
            return Err(String::from_str("Could not parse power command"));
        }
        let ghost all = texts(strings@);
        assert(all[0] == strings@[0]@);
        let application = strings.remove(0);
        assert(texts(strings@) =~= all.skip(1));
        Ok(PowerAction { action, command: application, arguments: strings })
    }

    pub fn get_action(&self) -> (action: Type)
        ensures
            action == self@.action,
    {
        self.action
    }

    pub fn get_command(&self) -> (command: String)
        ensures
            command@ == self@.command,
    {
        self.command.clone()
    }

    /// The call that carries the command out.
    pub fn execute(self) -> (r: Invocation)
        ensures
            r@ == (InvocationView {
                program: self@.command,
                arguments: self@.arguments,
                directory: None,
            }),
    {
        Invocation { program: self.command, arguments: self.arguments, directory: None }
    }

    pub fn get_arguments(&self) -> (arguments: Vec<String>)
        ensures
            texts(arguments@) == self@.arguments,
    {
        clone_strings(&self.arguments)
    }
}

} // verus!
