use crate::text::{clone_strings, split_whitespace, texts, words};
use crate::utils::{
    add_indented_aligned_key_value, builder_new, builder_text, finish, ident_and_append,
    key_value_line, list_text, quote, quoted, spaces, vec_to_string,
};
use vstd::prelude::*;

verus! {

/// The kinds of step that change an image while it is built.
#[derive(Debug, Eq, PartialEq, Clone, Copy, Structural)]
pub enum Types {
    SHELL,
    FILE,
}

/// One step of an image's build: shell lines to run in the image, or a file to
/// copy into it.
#[derive(Debug)]
pub struct Provisioner {
    provisioner: Types,
    command: Vec<String>,
}

/// What a step holds. A file step holds the source and the destination.
pub struct ProvisionerView {
    pub provisioner: Types,
    pub command: Seq<Seq<char>>,
}

impl ProvisionerView {
    /// The step's block in a builder input file.
    pub open spec fn block(self) -> Seq<char> {
        match self.provisioner {
            Types::SHELL => spaces(2) + "provisioner \"shell\" {\n"@ + key_value_line(
                4,
                7,
                "inline"@,
                list_text(self.command, true),
            ) + spaces(2) + "}\n"@,
            Types::FILE => spaces(2) + "provisioner \"file\" {\n"@ + key_value_line(
                4,
                11,
                "destination"@,
                quoted(self.command[1]),
            ) + key_value_line(4, 11, "source"@, quoted(self.command[0])) + spaces(2) + "}\n"@,
        }
    }
}

impl View for Provisioner {
    type V = ProvisionerView;

    closed spec fn view(&self) -> ProvisionerView {
        ProvisionerView { provisioner: self.provisioner, command: texts(self.command@) }
    }
}

/// What the steps of a list hold.
pub open spec fn provisioner_views(list: Seq<Provisioner>) -> Seq<ProvisionerView> {
    Seq::new(list.len(), |i: int| list[i]@)
}

/// The shell step that gathered lines make, if there are any.
pub open spec fn gathered(pending: Seq<Seq<char>>) -> Seq<ProvisionerView> {
    if pending.len() > 0 {
        seq![ProvisionerView { provisioner: Types::SHELL, command: pending }]
    } else {
        seq![]
    }
}

/// The steps from place `i` on, with the shell steps that follow one another
/// joined into one; `pending` holds the lines of the shell steps just before
/// `i`.
pub open spec fn grouped_from(list: Seq<ProvisionerView>, i: int, pending: Seq<Seq<char>>) -> Seq<
    ProvisionerView,
>
    decreases list.len() - i,
{
    if i < 0 || i >= list.len() {
        gathered(pending)
    } else if list[i].provisioner == Types::SHELL {
        grouped_from(list, i + 1, pending + list[i].command)
    } else {
        gathered(pending) + seq![list[i]] + grouped_from(list, i + 1, seq![])
    }
}

/// The steps with the shell steps that follow one another joined into one.
pub open spec fn grouped(list: Seq<ProvisionerView>) -> Seq<ProvisionerView> {
    grouped_from(list, 0, seq![])
}

impl Clone for Provisioner {
    fn clone(&self) -> (r: Self)
        ensures
            r@ == self@,
    {
        proof {
            use_type_invariant(self);
        }
        Provisioner { provisioner: self.provisioner, command: clone_strings(&self.command) }
    }
}

impl Provisioner {
    #[verifier::type_invariant]
    spec fn complete(&self) -> bool {
        self.provisioner == Types::FILE ==> self.command.len() == 2
    }

    /// Reads a step of the given kind from the rest of a recipe line.
    pub fn parse(provisioner: &Types, command: &str) -> (r: Result<Provisioner, &'static str>)
        ensures
            match provisioner {
                Types::SHELL => run_parsed(command@, r),
                Types::FILE => file_parsed(command@, r),
            },
    {
        match provisioner {
            Types::SHELL => parse_run(command),
            Types::FILE => parse_file(command),
        }
    }

    pub fn to_pkr_hcl(&self) -> (block: String)
        ensures
            block@ == self@.block(),
    {
        match self.provisioner {
            Types::SHELL => self.get_run(),
            Types::FILE => self.get_file(),
        }
    }

    fn get_run(&self) -> (block: String)
        requires
            self@.provisioner == Types::SHELL,
        ensures
            block@ == self@.block(),
    {
        let mut builder = builder_new();
        ident_and_append(&mut builder, "provisioner \"shell\" {\n", 2);
        let inline = vec_to_string(self.command.as_slice(), true);
        add_indented_aligned_key_value(&mut builder, 4, 7, "inline", inline.as_str());
        ident_and_append(&mut builder, "}\n", 2);
        assert(builder_text(builder) =~= self@.block());
        finish(builder)
    }

    fn get_file(&self) -> (block: String)
        requires
            self@.provisioner == Types::FILE,
        ensures
            block@ == self@.block(),
    {
        proof {
            use_type_invariant(self);
        }
        let mut builder = builder_new();
        ident_and_append(&mut builder, "provisioner \"file\" {\n", 2);
        let source = quote(self.command[0].as_str());
        let destination = quote(self.command[1].as_str());
        add_indented_aligned_key_value(&mut builder, 4, 11, "destination", destination.as_str());
        add_indented_aligned_key_value(&mut builder, 4, 11, "source", source.as_str());
        ident_and_append(&mut builder, "}\n", 2);
        assert(builder_text(builder) =~= self@.block());
        finish(builder)
    }

    pub fn get_type(&self) -> (kind: Types)
        ensures
            kind == self@.provisioner,
            kind == Types::FILE ==> self@.command.len() == 2,
    {
        proof {
            use_type_invariant(self);
        }
        self.provisioner
    }

    pub fn get_command(&self) -> (command: Vec<String>)
        ensures
            texts(command@) == self@.command,
    {
        clone_strings(&self.command)
    }
}

/// What reading a shell step gives: the whole line as one command, and an
/// error for an empty line.
pub open spec fn run_parsed(command: Seq<char>, r: Result<Provisioner, &'static str>) -> bool {
    match r {
        Ok(step) => {
            &&& command.len() > 0
            &&& step@ == (ProvisionerView { provisioner: Types::SHELL, command: seq![command] })
        },
        Err(message) => command.len() == 0 && message@ == "Could not parse Run provisioner"@,
    }
}

/// What reading a file step gives: source and destination, the two words of
/// the line, and an error for a line of more or fewer words.
pub open spec fn file_parsed(command: Seq<char>, r: Result<Provisioner, &'static str>) -> bool {
    match r {
        Ok(step) => {
            &&& words(command).len() == 2
            &&& step@ == (ProvisionerView { provisioner: Types::FILE, command: words(command) })
        },
        Err(message) => words(command).len() != 2 && message@
            == "Could not parse File provisioner"@,
    }
}

pub fn parse_run(command: &str) -> (r: Result<Provisioner, &'static str>)
    ensures
        run_parsed(command@, r),
{
    if command.is_empty() {
        Err("Could not parse Run provisioner")
    } else {
        let mut vec: Vec<String> = Vec::new();
        vec.push(String::from_str(command));
        let step = Provisioner { provisioner: Types::SHELL, command: vec };
        assert(step@.command =~= seq![command@]);
        Ok(step)
    }
}

pub fn parse_file(command: &str) -> (r: Result<Provisioner, &'static str>)
    ensures
        file_parsed(command@, r),
{
    let args = split_whitespace(command);
    if args.len() == 2 {
        return Ok(Provisioner { provisioner: Types::FILE, command: args });
    }
    Err("Could not parse File provisioner")
}

/// Joins the shell steps that follow one another into one step each, so that
/// the builder runs them in one go; file steps stay where they are.
pub fn group(provisioners: &[Provisioner]) -> (r: Vec<Provisioner>)
    ensures
        provisioner_views(r@) == grouped(provisioner_views(provisioners@)),
{
    let ghost list = provisioner_views(provisioners@);
    let mut vec: Vec<Provisioner> = Vec::new();
    let mut candidates: Vec<String> = Vec::new();
    let mut i: usize = 0;
    assert(provisioner_views(vec@) =~= Seq::<ProvisionerView>::empty());
    while i < provisioners.len()
        invariant
            i <= provisioners.len(),
            list == provisioner_views(provisioners@),
            provisioner_views(vec@) + grouped_from(list, i as int, texts(candidates@)) == grouped(
                list,
            ),
        decreases provisioners.len() - i,
    {
        let ghost done = provisioner_views(vec@);
        let ghost pending = texts(candidates@);
        let provisioner = &provisioners[i];
        assert(list[i as int] == provisioner@);
        match provisioner.get_type() {
            Types::SHELL => {
                let mut lines = provisioner.get_command();
                candidates.append(&mut lines);
                assert(texts(candidates@) =~= pending + provisioner@.command);
            },
            Types::FILE => {
                if candidates.len() > 0 {
                    let step = Provisioner { provisioner: Types::SHELL, command: candidates };
                    vec.push(step);
                    candidates = Vec::new();
                }
                vec.push(provisioner.clone());
                assert(texts(candidates@) =~= Seq::<Seq<char>>::empty());
                assert(provisioner_views(vec@) =~= done + gathered(pending) + seq![list[i as int]]);
            },
        }
        i += 1;
    }
    let ghost done = provisioner_views(vec@);
    if candidates.len() > 0 {
        let step = Provisioner { provisioner: Types::SHELL, command: candidates };
        vec.push(step);
    }
    assert(provisioner_views(vec@) =~= done + gathered(texts(candidates@)));
    vec
}

} // verus!
