use crate::arm_preamble::{ArmPreamble, ArmPreambleView};
use crate::preamble::Preamble;
use crate::text::str_eq;
use crate::x86_preamble::{X86Preamble, X86PreambleView};
use vstd::prelude::*;

verus! {

/// The processor families a node or an image can belong to.
#[derive(Debug, Clone, Copy, PartialEq, Eq, Structural)]
pub enum Architecture {
    ARM32,
    ARM64,
    X86,
}

impl Architecture {
    /// The name under which an architecture stands in recipes, manifests and
    /// the ledger.
    pub open spec fn name(self) -> Seq<char> {
        match self {
            Architecture::ARM32 => "ARM32"@,
            Architecture::ARM64 => "ARM64"@,
            Architecture::X86 => "X86"@,
        }
    }

    pub fn get_name(&self) -> (name: &'static str)
        ensures
            name@ == self.name(),
    {
        match self {
            Architecture::ARM32 => "ARM32",
            Architecture::ARM64 => "ARM64",
            Architecture::X86 => "X86",
        }
    }

    /// Fresh settings of the builder that makes images of this architecture.
    pub fn get_preamble(&self) -> (preamble: Preamble)
        ensures
            match preamble {
                Preamble::Arm(settings) => *self != Architecture::X86 && settings@
                    == ArmPreambleView::fresh(),
                Preamble::X86(settings) => *self == Architecture::X86 && settings@
                    == X86PreambleView::fresh(settings@.vm_name),
            },
    {
        match self {
            Architecture::ARM32 | Architecture::ARM64 => Preamble::Arm(ArmPreamble::default()),
            Architecture::X86 => Preamble::X86(X86Preamble::default()),
        }
    }

    /// Reads an architecture's name. Any other text is refused.
    pub fn parse(line: &str) -> (r: Result<Architecture, &'static str>)
        ensures
            match r {
                Ok(architecture) => line@ == architecture.name(),
                Err(message) => {
                    &&& message@ == "not supported"@
                    &&& forall|a: Architecture| line@ != a.name()
                },
            },
    {
        if str_eq(line, "ARM32") {
            Ok(Architecture::ARM32)
        } else if str_eq(line, "ARM64") {
            Ok(Architecture::ARM64)
        } else if str_eq(line, "X86") {
            Ok(Architecture::X86)
        } else {
            Err("not supported")
        }
    }
}

/// No two architectures share a name, so a name stands for one architecture.
pub proof fn lemma_names_differ(a: Architecture, b: Architecture)
    ensures
        a.name() == b.name() <==> a == b,
{
    reveal_strlit("ARM32");
    reveal_strlit("ARM64");
    reveal_strlit("X86");
    if a != b && a.name() == b.name() {
        assert(a.name().len() == b.name().len());
        assert(a.name()[3] == b.name()[3]);
    }
}

} // verus!
