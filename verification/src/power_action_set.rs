use crate::power_action::{PowerAction, PowerActionView, Type};
use vstd::prelude::*;

verus! {

/// The power commands of a node: for each thing that can be done, the command
/// that does it, or why there is none.
#[derive(Debug)]
pub struct PowerActionSet {
    on: Result<PowerAction, String>,
    off: Result<PowerAction, String>,
    reboot: Result<PowerAction, String>,
}

/// What a command, or the reason for its absence, holds.
pub open spec fn outcome(r: Result<PowerAction, String>) -> Result<PowerActionView, Seq<char>> {
    match r {
        Ok(action) => Ok(action@),
        Err(reason) => Err(reason@),
    }
}

impl PowerActionSet {
    /// The entry for one thing that can be done.
    pub closed spec fn entry(&self, action: Type) -> Result<PowerActionView, Seq<char>> {
        match action {
            Type::ON => outcome(self.on),
            Type::OFF => outcome(self.off),
            Type::REBOOT => outcome(self.reboot),
        }
    }

    pub fn new(
        on: Result<PowerAction, String>,
        off: Result<PowerAction, String>,
        reboot: Result<PowerAction, String>,
    ) -> (r: Self)
        ensures
            r.entry(Type::ON) == outcome(on),
            r.entry(Type::OFF) == outcome(off),
            r.entry(Type::REBOOT) == outcome(reboot),
    {
        PowerActionSet { on, off, reboot }
    }

    pub fn get(self, action: &Type) -> (r: Result<PowerAction, String>)
        ensures
            outcome(r) == self.entry(*action),
    {
        match action {
            Type::ON => self.on,
            Type::OFF => self.off,
            Type::REBOOT => self.reboot,
        }
    }
}

} // verus!
