use crate::text::{clone_strings, texts};
use vstd::prelude::*;

verus! {

/// A call of a program of the operating system: the program and its
/// arguments, to be run in the given directory where one is named.
#[derive(Debug)]
pub struct Invocation {
    pub program: String,
    pub arguments: Vec<String>,
    pub directory: Option<String>,
}

/// What a call holds.
pub struct InvocationView {
    pub program: Seq<char>,
    pub arguments: Seq<Seq<char>>,
    pub directory: Option<Seq<char>>,
}

impl View for Invocation {
    type V = InvocationView;

    open spec fn view(&self) -> InvocationView {
        InvocationView {
            program: self.program@,
            arguments: texts(self.arguments@),
            directory: crate::text::opt_text(self.directory),
        }
    }
}

/// What the calls of a list hold.
pub open spec fn invocation_views(list: Seq<Invocation>) -> Seq<InvocationView> {
    Seq::new(list.len(), |i: int| list[i]@)
}

/// A call of `program` with the given arguments.
pub open spec fn call(program: Seq<char>, arguments: Seq<Seq<char>>) -> InvocationView {
    InvocationView { program, arguments, directory: None }
}

impl Invocation {
    /// A call of `program` without arguments.
    pub fn new(program: &str) -> (r: Self)
        ensures
            r@ == call(program@, seq![]),
    {
        let r = Invocation {
            program: String::from_str(program),
            arguments: Vec::new(),
            directory: None,
        };
        assert(r@.arguments =~= Seq::<Seq<char>>::empty());
        r
    }

    /// The call with one more argument.
    pub fn arg(self, argument: String) -> (r: Self)
        ensures
            r@ == (InvocationView { arguments: self@.arguments.push(argument@), ..self@ }),
    {
        let mut arguments = self.arguments;
        arguments.push(argument);
        let r = Invocation { program: self.program, arguments, directory: self.directory };
        assert(r@.arguments =~= self@.arguments.push(argument@));
        r
    }

    /// The call with one more argument.
    pub fn arg_str(self, argument: &str) -> (r: Self)
        ensures
            r@ == (InvocationView { arguments: self@.arguments.push(argument@), ..self@ }),
    {
        self.arg(String::from_str(argument))
    }

    /// The call, to be run in the given directory.
    pub fn current_dir(self, directory: String) -> (r: Self)
        ensures
            r@ == (InvocationView { directory: Some(directory@), ..self@ }),
    {
        Invocation { program: self.program, arguments: self.arguments, directory: Some(directory) }
    }
}

impl Clone for Invocation {
    fn clone(&self) -> (r: Self)
        ensures
            r@ == self@,
    {
        Invocation {
            program: self.program.clone(),
            arguments: clone_strings(&self.arguments),
            directory: crate::text::clone_opt(&self.directory),
        }
    }
}

} // verus!
